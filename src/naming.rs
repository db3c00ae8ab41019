//! Where an encoded image goes when no output path is given.

use vstd::prelude::*;

verus! {

/// `path` with the extension of its file name replaced by `ext`.
pub uninterp spec fn path_with_extension(path: Seq<char>, ext: Seq<char>) -> Seq<char>;

/// Relies on `std::path::Path::with_extension`: the path with its file name's
/// extension replaced by (or, where it has none, extended with) `ext`. The
/// result depends on the two strings alone. The call panics where `ext`
/// holds a path separator, so such an `ext` is ruled out.
#[verifier::external_body]
fn with_extension(path: &String, ext: &str) -> (r: String)
    requires
        forall|i: int| 0 <= i < ext@.len() ==> ext@[i] != '/' && ext@[i] != '\\',
    ensures
        r@ == path_with_extension(path@, ext@),
{
    std::path::Path::new(path.as_str()).with_extension(ext).to_string_lossy().into_owned()
}

/// The path an encoded image is written to: `output` where it is given,
/// otherwise `input` with its extension replaced by `enc.png`.
pub fn get_output_filename(input: &String, output: &Option<String>) -> (r: String)
    ensures
        match output {
            Some(p) => r@ == p@,
            None => r@ == path_with_extension(input@, "enc.png"@),
        },
{
    match output {
        Some(p) => p.clone(),
        None => {
            proof {
                reveal_strlit("enc.png");
            }
            with_extension(input, "enc.png")
        },
    }
}

} // verus!
