//! What kind of file a changed path is, judged by its name.
use crate::pathname::{extension, file_name, path_extension, path_file_name};
use crate::text::str_eq;
use vstd::prelude::*;

verus! {

#[derive(Debug, Clone, Copy, PartialEq, Eq, Structural)]
pub enum LanguageType {
    Rust,
    Programming,
    Prose,
    Markup,
    Data,
    Unknown,
}

impl LanguageType {
    pub open spec fn spec_is_programming(self) -> bool {
        self == LanguageType::Rust || self == LanguageType::Programming
    }

    pub open spec fn spec_is_reviewable_source(self) -> bool {
        self == LanguageType::Rust || self == LanguageType::Programming || self
            == LanguageType::Prose || self == LanguageType::Markup
    }

    pub fn is_programming(&self) -> (r: bool)
        ensures
            r == self.spec_is_programming(),
    {
        matches!(self, LanguageType::Rust | LanguageType::Programming)
    }

    pub fn is_reviewable_source(&self) -> (r: bool)
        ensures
            r == self.spec_is_reviewable_source(),
    {
        matches!(
            self,
            LanguageType::Rust | LanguageType::Programming | LanguageType::Prose
                | LanguageType::Markup
        )
    }
}

/// File names that are data whatever their extension.
pub open spec fn is_data_file_name(n: Seq<char>) -> bool {
    n == "LICENSE"@ || n == "LICENSE.md"@ || n == "LICENSE.txt"@ || n == ".gitignore"@ || n
        == "Cargo.lock"@
}

/// The language type of a file extension.
pub open spec fn extension_type(e: Seq<char>) -> LanguageType {
    if e == "rs"@ {
        LanguageType::Rust
    } else if e == "sh"@ || e == "py"@ || e == "js"@ || e == "ts"@ {
        LanguageType::Programming
    } else if e == "md"@ || e == "mdx"@ || e == "txt"@ {
        LanguageType::Prose
    } else if e == "html"@ || e == "xml"@ || e == "svg"@ {
        LanguageType::Markup
    } else if e == "yaml"@ || e == "yml"@ || e == "json"@ || e == "toml"@ || e == "lock"@ {
        LanguageType::Data
    } else {
        LanguageType::Unknown
    }
}

/// Classification from a path's file name and extension: a few well-known
/// file names are data, otherwise the extension decides.
pub open spec fn classify_parts(name: Option<Seq<char>>, ext: Option<Seq<char>>) -> LanguageType {
    if name matches Some(n) && is_data_file_name(n) {
        LanguageType::Data
    } else {
        match ext {
            Some(e) => extension_type(e),
            None => LanguageType::Unknown,
        }
    }
}

/// Which extension names which kind of file, by the extension alone: `rs`
/// is Rust; `sh`, `py`, `js` and `ts` are code; `md`, `mdx` and `txt` are
/// prose; `html`, `xml` and `svg` are markup; `yaml`, `yml`, `json`, `toml`
/// and `lock` are data; a file named `LICENSE`, `LICENSE.md`,
/// `LICENSE.txt`, `.gitignore` or `Cargo.lock` is data whatever its
/// extension; a file with no extension, or another, is unknown.
pub proof fn law_classification(name: Option<Seq<char>>, e: Option<Seq<char>>)
    ensures
        (name matches Some(n) && (n == "LICENSE"@ || n == "LICENSE.md"@ || n == "LICENSE.txt"@
            || n == ".gitignore"@ || n == "Cargo.lock"@)) ==> classify_parts(name, e)
            == LanguageType::Data,
        !(name matches Some(n) && (n == "LICENSE"@ || n == "LICENSE.md"@ || n == "LICENSE.txt"@
            || n == ".gitignore"@ || n == "Cargo.lock"@)) ==> {
            &&& e == Some("rs"@) ==> classify_parts(name, e) == LanguageType::Rust
            &&& (e == Some("sh"@) || e == Some("py"@) || e == Some("js"@) || e == Some("ts"@))
                ==> classify_parts(name, e) == LanguageType::Programming
            &&& (e == Some("md"@) || e == Some("mdx"@) || e == Some("txt"@)) ==> classify_parts(
                name,
                e,
            ) == LanguageType::Prose
            &&& (e == Some("html"@) || e == Some("xml"@) || e == Some("svg"@)) ==> classify_parts(
                name,
                e,
            ) == LanguageType::Markup
            &&& (e == Some("yaml"@) || e == Some("yml"@) || e == Some("json"@) || e == Some(
                "toml"@,
            ) || e == Some("lock"@)) ==> classify_parts(name, e) == LanguageType::Data
            &&& e is None ==> classify_parts(name, e) == LanguageType::Unknown
        },
{
    reveal_strlit("rs");
    reveal_strlit("sh");
    reveal_strlit("py");
    reveal_strlit("js");
    reveal_strlit("ts");
    reveal_strlit("md");
    reveal_strlit("mdx");
    reveal_strlit("txt");
    reveal_strlit("html");
    reveal_strlit("xml");
    reveal_strlit("svg");
    reveal_strlit("yaml");
    reveal_strlit("yml");
    reveal_strlit("json");
    reveal_strlit("toml");
    reveal_strlit("lock");
    assert("rs"@[0] != "sh"@[0]);
    assert("rs"@[0] != "py"@[0]);
    assert("sh"@[0] != "py"@[0]);
    assert("rs"@[0] != "js"@[0]);
    assert("sh"@[0] != "js"@[0]);
    assert("py"@[0] != "js"@[0]);
    assert("rs"@[0] != "ts"@[0]);
    assert("sh"@[0] != "ts"@[0]);
    assert("py"@[0] != "ts"@[0]);
    assert("js"@[0] != "ts"@[0]);
    assert("rs"@[0] != "md"@[0]);
    assert("sh"@[0] != "md"@[0]);
    assert("py"@[0] != "md"@[0]);
    assert("js"@[0] != "md"@[0]);
    assert("ts"@[0] != "md"@[0]);
    assert("rs"@.len() != "mdx"@.len());
    assert("sh"@.len() != "mdx"@.len());
    assert("py"@.len() != "mdx"@.len());
    assert("js"@.len() != "mdx"@.len());
    assert("ts"@.len() != "mdx"@.len());
    assert("md"@.len() != "mdx"@.len());
    assert("rs"@.len() != "txt"@.len());
    assert("sh"@.len() != "txt"@.len());
    assert("py"@.len() != "txt"@.len());
    assert("js"@.len() != "txt"@.len());
    assert("ts"@.len() != "txt"@.len());
    assert("md"@.len() != "txt"@.len());
    assert("mdx"@[0] != "txt"@[0]);
    assert("rs"@.len() != "html"@.len());
    assert("sh"@.len() != "html"@.len());
    assert("py"@.len() != "html"@.len());
    assert("js"@.len() != "html"@.len());
    assert("ts"@.len() != "html"@.len());
    assert("md"@.len() != "html"@.len());
    assert("mdx"@.len() != "html"@.len());
    assert("txt"@.len() != "html"@.len());
    assert("rs"@.len() != "xml"@.len());
    assert("sh"@.len() != "xml"@.len());
    assert("py"@.len() != "xml"@.len());
    assert("js"@.len() != "xml"@.len());
    assert("ts"@.len() != "xml"@.len());
    assert("md"@.len() != "xml"@.len());
    assert("mdx"@[0] != "xml"@[0]);
    assert("txt"@[0] != "xml"@[0]);
    assert("html"@.len() != "xml"@.len());
    assert("rs"@.len() != "svg"@.len());
    assert("sh"@.len() != "svg"@.len());
    assert("py"@.len() != "svg"@.len());
    assert("js"@.len() != "svg"@.len());
    assert("ts"@.len() != "svg"@.len());
    assert("md"@.len() != "svg"@.len());
    assert("mdx"@[0] != "svg"@[0]);
    assert("txt"@[0] != "svg"@[0]);
    assert("html"@.len() != "svg"@.len());
    assert("xml"@[0] != "svg"@[0]);
    assert("rs"@.len() != "yaml"@.len());
    assert("sh"@.len() != "yaml"@.len());
    assert("py"@.len() != "yaml"@.len());
    assert("js"@.len() != "yaml"@.len());
    assert("ts"@.len() != "yaml"@.len());
    assert("md"@.len() != "yaml"@.len());
    assert("mdx"@.len() != "yaml"@.len());
    assert("txt"@.len() != "yaml"@.len());
    assert("html"@[0] != "yaml"@[0]);
    assert("xml"@.len() != "yaml"@.len());
    assert("svg"@.len() != "yaml"@.len());
    assert("rs"@.len() != "yml"@.len());
    assert("sh"@.len() != "yml"@.len());
    assert("py"@.len() != "yml"@.len());
    assert("js"@.len() != "yml"@.len());
    assert("ts"@.len() != "yml"@.len());
    assert("md"@.len() != "yml"@.len());
    assert("mdx"@[0] != "yml"@[0]);
    assert("txt"@[0] != "yml"@[0]);
    assert("html"@.len() != "yml"@.len());
    assert("xml"@[0] != "yml"@[0]);
    assert("svg"@[0] != "yml"@[0]);
    assert("yaml"@.len() != "yml"@.len());
    assert("rs"@.len() != "json"@.len());
    assert("sh"@.len() != "json"@.len());
    assert("py"@.len() != "json"@.len());
    assert("js"@.len() != "json"@.len());
    assert("ts"@.len() != "json"@.len());
    assert("md"@.len() != "json"@.len());
    assert("mdx"@.len() != "json"@.len());
    assert("txt"@.len() != "json"@.len());
    assert("html"@[0] != "json"@[0]);
    assert("xml"@.len() != "json"@.len());
    assert("svg"@.len() != "json"@.len());
    assert("yaml"@[0] != "json"@[0]);
    assert("yml"@.len() != "json"@.len());
    assert("rs"@.len() != "toml"@.len());
    assert("sh"@.len() != "toml"@.len());
    assert("py"@.len() != "toml"@.len());
    assert("js"@.len() != "toml"@.len());
    assert("ts"@.len() != "toml"@.len());
    assert("md"@.len() != "toml"@.len());
    assert("mdx"@.len() != "toml"@.len());
    assert("txt"@.len() != "toml"@.len());
    assert("html"@[0] != "toml"@[0]);
    assert("xml"@.len() != "toml"@.len());
    assert("svg"@.len() != "toml"@.len());
    assert("yaml"@[0] != "toml"@[0]);
    assert("yml"@.len() != "toml"@.len());
    assert("json"@[0] != "toml"@[0]);
    assert("rs"@.len() != "lock"@.len());
    assert("sh"@.len() != "lock"@.len());
    assert("py"@.len() != "lock"@.len());
    assert("js"@.len() != "lock"@.len());
    assert("ts"@.len() != "lock"@.len());
    assert("md"@.len() != "lock"@.len());
    assert("mdx"@.len() != "lock"@.len());
    assert("txt"@.len() != "lock"@.len());
    assert("html"@[0] != "lock"@[0]);
    assert("xml"@.len() != "lock"@.len());
    assert("svg"@.len() != "lock"@.len());
    assert("yaml"@[0] != "lock"@[0]);
    assert("yml"@.len() != "lock"@.len());
    assert("json"@[0] != "lock"@[0]);
    assert("toml"@[0] != "lock"@[0]);
}

/// `classify_parts` on given parts.
pub fn classify_name_and_extension(name: Option<&str>, ext: Option<&str>) -> (r: LanguageType)
    ensures
        r == classify_parts(
            match name {
                Some(n) => Some(n@),
                None => None,
            },
            match ext {
                Some(e) => Some(e@),
                None => None,
            },
        ),
{
    if let Some(n) = name {
        if str_eq(n, "LICENSE") || str_eq(n, "LICENSE.md") || str_eq(n, "LICENSE.txt") || str_eq(
            n,
            ".gitignore",
        ) || str_eq(n, "Cargo.lock") {
            return LanguageType::Data;
        }
    }
    match ext {
        Some(e) => {
            if str_eq(e, "rs") {
                LanguageType::Rust
            } else if str_eq(e, "sh") || str_eq(e, "py") || str_eq(e, "js") || str_eq(e, "ts") {
                LanguageType::Programming
            } else if str_eq(e, "md") || str_eq(e, "mdx") || str_eq(e, "txt") {
                LanguageType::Prose
            } else if str_eq(e, "html") || str_eq(e, "xml") || str_eq(e, "svg") {
                LanguageType::Markup
            } else if str_eq(e, "yaml") || str_eq(e, "yml") || str_eq(e, "json") || str_eq(
                e,
                "toml",
            ) || str_eq(e, "lock") {
                LanguageType::Data
            } else {
                LanguageType::Unknown
            }
        },
        None => LanguageType::Unknown,
    }
}

/// The language type of the file at `path` (by its file name and
/// extension, as `std::path` reads them).
pub fn classify(path: &str) -> (r: LanguageType)
    ensures
        r == classify_parts(path_file_name(path@), path_extension(path@)),
{
    let name = file_name(path);
    let ext = extension(path);
    let n = match &name {
        Some(s) => Some(s.as_str()),
        None => None,
    };
    let e = match &ext {
        Some(s) => Some(s.as_str()),
        None => None,
    };
    classify_name_and_extension(n, e)
}

} // verus!
