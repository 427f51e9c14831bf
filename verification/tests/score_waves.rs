use heist_cli::domain::score::{wave_blocks, NoSuchWave, Score, Shape, Step};


fn valid_change_step(number: u32, wave: u32, enclosing_wave: u32, file: &str) -> Step {
    Step {
        number,
        title: format!("step {}", number),
        wave,
        enclosing_wave,
        files: vec![file.to_string()],
        shape: Shape::Change {
            change: "do the thing.".to_string(),
            verify: "cargo build".to_string(),
        },
        depends_on: Vec::new(),
        raw: format!("### Step {}: step {}\n", number, number),
    }
}

#[test]
fn mod_wave_blocks_returns_numbered_raw_slices_for_the_requested_wave() {
    let mut first = valid_change_step(1, 1, 1, "/tmp/a.rs");
    let mut second = valid_change_step(2, 1, 1, "/tmp/b.rs");
    let third = valid_change_step(3, 2, 2, "/tmp/c.rs");
    first.raw = "AAA".to_string();
    second.raw = "BBB".to_string();
    let score = Score {
        steps: vec![first, second, third],
    };

    let blocks = wave_blocks(&score, 1).expect("wave 1 should exist");
    assert_eq!(blocks, vec![(1, "AAA".to_string()), (2, "BBB".to_string())]);

    let err = wave_blocks(&score, 3).expect_err("wave 3 should not exist");
    assert_eq!(err, NoSuchWave(3));
}
