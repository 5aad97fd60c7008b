//! Deriving a safe on-disk filename from an untrusted, optional client
//! filename, and joining it under the fixed upload root directory.

use vstd::prelude::*;
use vstd::string::*;

verus! {

/// A string that is safe to use as a single path component under the upload
/// root: it is not empty, holds no path separator and no NUL byte, and is
/// neither the current-directory nor the parent-directory reference.
pub open spec fn safe_component(s: Seq<char>) -> bool {
    &&& s.len() > 0
    &&& forall|i: int| 0 <= i < s.len() ==> s[i] != '/' && s[i] != '\\' && s[i] != '\u{0}'
    &&& s != seq!['.']
    &&& s != seq!['.', '.']
}

/// The character set of a rendered 128-bit random identifier: lowercase
/// hexadecimal digits.
pub open spec fn uuid_digit(c: char) -> bool {
    ('0' <= c && c <= '9') || ('a' <= c && c <= 'f')
}

/// The canonical hyphenated rendering of a 128-bit identifier: 36
/// characters, hyphens at positions 8, 13, 18 and 23, lowercase hexadecimal
/// digits everywhere else.
pub open spec fn uuid_name(s: Seq<char>) -> bool {
    &&& s.len() == 36
    &&& forall|i: int|
        0 <= i < 36 ==> #[trigger] s[i] == '-' <==> (i == 8 || i == 13 || i == 18 || i == 23)
    &&& forall|i: int|
        0 <= i < 36 && !(i == 8 || i == 13 || i == 18 || i == 23) ==> uuid_digit(#[trigger] s[i])
}

pub proof fn lemma_uuid_name_is_safe(s: Seq<char>)
    requires
        uuid_name(s),
    ensures
        safe_component(s),
{
    assert forall|i: int| 0 <= i < s.len() implies s[i] != '/' && s[i] != '\\' && s[i]
        != '\u{0}' by {
        if !(i == 8 || i == 13 || i == 18 || i == 23) {
            assert(uuid_digit(s[i]));
        }
    }
}

/// What the sanitizer of the `sanitize_filename` crate returns for a given
/// input, under the fixed options used by [`sanitize_name`]. The result is a
/// pure function of the input string.
pub uninterp spec fn sanitized_of(s: Seq<char>) -> Seq<char>;

/// Relies on `sanitize_filename::sanitize_with_options` with fixed options
/// (windows rules on, truncation on, empty replacement), a pure function of
/// its input. Its source deletes every occurrence of `/ \ ? < > : * | "`
/// and of the control characters `\x00`-`\x1f` and `\x80`-`\x9f`, and maps
/// a name made only of dots to the empty string, so the result never holds
/// a separator or a NUL and is never `.` or `..`.
#[verifier::external_body]
fn sanitize_name(name: &str) -> (r: String)
    ensures
        r@ == sanitized_of(name@),
        forall|i: int| 0 <= i < r@.len() ==> r@[i] != '/' && r@[i] != '\\' && r@[i] != '\u{0}',
        r@ != seq!['.'],
        r@ != seq!['.', '.'],
{
    sanitize_filename::sanitize_with_options(
        name,
        sanitize_filename::Options { windows: true, truncate: true, replacement: "" },
    )
}

/// Relies on `uuid::Uuid::new_v4` and the `Display` impl of `uuid::Uuid`:
/// a freshly drawn random 128-bit identifier, rendered hyphenated and
/// lowercase. The value is random, so nothing relates two calls; every
/// outcome is a 36-character hyphenated lowercase hexadecimal string.
#[verifier::external_body]
fn fresh_name() -> (r: String)
    ensures
        uuid_name(r@),
{
    uuid::Uuid::new_v4().to_string()
}

/// Derive the on-disk filename for one multipart field from its declared
/// filename, if any. A missing filename, or one that the sanitizer strips
/// to nothing, falls back to a freshly generated random identifier; the
/// result is always safe to use as a path component under the upload root.
pub fn resolve_filename(declared: Option<&str>) -> (r: String)
    ensures
        safe_component(r@),
        declared is None ==> uuid_name(r@),
        declared matches Some(f) ==> ((sanitized_of(f@).len() > 0 ==> r@ == sanitized_of(f@)) && (
        sanitized_of(f@).len() == 0 ==> uuid_name(r@))),
{
    match declared {
        None => {
            let r = fresh_name();
            proof {
                lemma_uuid_name_is_safe(r@);
            }
            r
        },
        Some(f) => {
            let s = sanitize_name(f);
            if s.as_str().is_empty() {
                let r = fresh_name();
                proof {
                    lemma_uuid_name_is_safe(r@);
                }
                r
            } else {
                s
            }
        },
    }
}

/// The path of a component joined under a root directory.
pub open spec fn joined_path(root: Seq<char>, name: Seq<char>) -> Seq<char> {
    root + seq!['/'] + name
}

/// A path that stays lexically inside `root`: the root is an unchanged
/// prefix, exactly one separator follows it, and everything after that
/// separator is a single safe component.
pub open spec fn lexically_inside(root: Seq<char>, path: Seq<char>) -> bool {
    &&& path.len() > root.len() + 1
    &&& path.subrange(0, root.len() as int) == root
    &&& path[root.len() as int] == '/'
    &&& safe_component(path.subrange((root.len() + 1) as int, path.len() as int))
}

/// Joining any safe component under any root yields a path that stays
/// lexically inside that root: no separator and no parent-directory
/// reference survives in the part after the root.
pub proof fn lemma_joined_path_inside_root(root: Seq<char>, name: Seq<char>)
    requires
        safe_component(name),
    ensures
        lexically_inside(root, joined_path(root, name)),
{
    let path = joined_path(root, name);
    assert(path.subrange(0, root.len() as int) =~= root);
    assert(path.subrange((root.len() + 1) as int, path.len() as int) =~= name);
}

/// Build the destination path of a resolved filename under the upload root.
pub fn destination_path(root: &str, name: &str) -> (r: String)
    ensures
        r@ == joined_path(root@, name@),
{
    let mut p = String::from_str(root);
    p.append("/");
    p.append(name);
    proof {
        reveal_strlit("/");
        assert(p@ =~= joined_path(root@, name@));
    }
    p
}

} // verus!
