use vstd::prelude::*;

verus! {

/// What a read gave: the file's text, none, or why it could not be read.
pub open spec fn read_result_view(r: Result<Option<String>, String>) -> Result<
    Option<Seq<char>>,
    Seq<char>,
> {
    match r {
        Ok(Some(t)) => Ok(Some(t@)),
        Ok(None) => Ok(None),
        Err(m) => Err(m@),
    }
}

/// The reads of a log: each directory and what reading its
/// `validation.md` gave.
pub open spec fn reads_view(v: Seq<(String, Result<Option<String>, String>)>) -> Seq<
    (Seq<char>, Result<Option<Seq<char>>, Seq<char>>),
> {
    v.map_values(
        |e: (String, Result<Option<String>, String>)| (e.0@, read_result_view(e.1)),
    )
}

/// The repository's `validation.md` files and the file system facts that
/// resolving them needs. Paths are held as text; errors carry a message.
/// Each implementation keeps the log of the `validation.md` reads it was
/// asked for; the other operations read no file of that name.
pub trait ValidationSource {
    /// The reads asked so far, in order.
    spec fn reads(&self) -> Vec<(String, Result<Option<String>, String>)>;

    fn repo_root(&mut self) -> (r: Result<String, String>)
        ensures
            reads_view(final(self).reads()@) == reads_view(old(self).reads()@),
    ;

    fn read_validation(&mut self, dir: &str) -> (r: Result<Option<String>, String>)
        ensures
            reads_view(final(self).reads()@) == reads_view(old(self).reads()@).push(
                (dir@, read_result_view(r)),
            ),
    ;

    fn path_exists(&mut self, path: &str) -> (r: bool)
        ensures
            reads_view(final(self).reads()@) == reads_view(old(self).reads()@),
    ;

    fn is_dir(&mut self, path: &str) -> (r: bool)
        ensures
            reads_view(final(self).reads()@) == reads_view(old(self).reads()@),
    ;

    fn canonicalize(&mut self, path: &str) -> (r: Result<String, String>)
        ensures
            reads_view(final(self).reads()@) == reads_view(old(self).reads()@),
    ;
}

} // verus!
