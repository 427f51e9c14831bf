//! `std::path` operations on paths held as text. Each result is named by a
//! spec function: the contracts of the library speak of these names and
//! claim nothing more about how `std` splits paths into components.
use vstd::prelude::*;

verus! {

/// `Path::file_name` of the path `p`, as text.
pub uninterp spec fn path_file_name(p: Seq<char>) -> Option<Seq<char>>;

/// `Path::extension` of the path `p`, as text.
pub uninterp spec fn path_extension(p: Seq<char>) -> Option<Seq<char>>;

/// `Path::parent` of the path `p`, as text.
pub uninterp spec fn path_parent(p: Seq<char>) -> Option<Seq<char>>;

/// `Path::join` of `base` and `tail`, as text.
pub uninterp spec fn path_join(base: Seq<char>, tail: Seq<char>) -> Seq<char>;

/// `Path`'s `==`: the two paths have the same components.
pub uninterp spec fn path_eq(a: Seq<char>, b: Seq<char>) -> bool;

/// `std::path::Path::file_name`, when it is valid UTF-8.
#[verifier::external_body]
pub fn file_name(p: &str) -> (r: Option<String>)
    ensures
        r matches Some(s) ==> path_file_name(p@) == Some(s@),
        r is None ==> path_file_name(p@) is None,
{
    std::path::Path::new(p).file_name().and_then(|n| n.to_str()).map(|n| n.to_string())
}

/// `std::path::Path::extension`, when it is valid UTF-8.
#[verifier::external_body]
pub fn extension(p: &str) -> (r: Option<String>)
    ensures
        r matches Some(s) ==> path_extension(p@) == Some(s@),
        r is None ==> path_extension(p@) is None,
{
    std::path::Path::new(p).extension().and_then(|n| n.to_str()).map(|n| n.to_string())
}

/// `std::path::Path::parent`.
#[verifier::external_body]
pub fn parent(p: &str) -> (r: Option<String>)
    ensures
        r matches Some(s) ==> path_parent(p@) == Some(s@),
        r is None ==> path_parent(p@) is None,
{
    std::path::Path::new(p).parent().map(|q| q.to_string_lossy().to_string())
}

/// `std::path::Path::join`.
#[verifier::external_body]
pub fn join(base: &str, tail: &str) -> (r: String)
    ensures
        r@ == path_join(base@, tail@),
{
    std::path::Path::new(base).join(tail).to_string_lossy().to_string()
}

/// `==` on `std::path::Path`.
#[verifier::external_body]
pub fn same_path(a: &str, b: &str) -> (r: bool)
    ensures
        r == path_eq(a@, b@),
        a@ == b@ ==> r,
{
    std::path::Path::new(a) == std::path::Path::new(b)
}

/// `Path::is_absolute` of the path `p`.
pub uninterp spec fn path_is_absolute(p: Seq<char>) -> bool;

/// `Path::strip_prefix` of `p` by `base`, as text.
pub uninterp spec fn path_strip_prefix(p: Seq<char>, base: Seq<char>) -> Option<Seq<char>>;

/// `Path::components` of `p`, each as text.
pub uninterp spec fn path_components(p: Seq<char>) -> Seq<Seq<char>>;

/// `Path`'s `<`: `a` sorts before `b`, component by component.
pub uninterp spec fn path_less(a: Seq<char>, b: Seq<char>) -> bool;

/// `std::path::Path::is_absolute`.
#[verifier::external_body]
pub fn is_absolute(p: &str) -> (r: bool)
    ensures
        r == path_is_absolute(p@),
{
    std::path::Path::new(p).is_absolute()
}

/// `std::path::Path::strip_prefix`.
#[verifier::external_body]
pub fn strip_prefix(p: &str, base: &str) -> (r: Option<String>)
    ensures
        r matches Some(s) ==> path_strip_prefix(p@, base@) == Some(s@),
        r is None ==> path_strip_prefix(p@, base@) is None,
{
    std::path::Path::new(p).strip_prefix(base).ok().map(|q| q.to_string_lossy().to_string())
}

/// `std::path::Path::components`, each component as text.
#[verifier::external_body]
pub fn components(p: &str) -> (r: Vec<String>)
    ensures
        r@.len() == path_components(p@).len(),
        forall|i: int| 0 <= i < r@.len() ==> (#[trigger] r@[i])@ == path_components(p@)[i],
{
    std::path::Path::new(p).components().map(|c| c.as_os_str().to_string_lossy().to_string()).collect()
}

/// `<` on `std::path::Path`.
#[verifier::external_body]
pub fn path_lt(a: &str, b: &str) -> (r: bool)
    ensures
        r == path_less(a@, b@),
{
    std::path::Path::new(a) < std::path::Path::new(b)
}

} // verus!
