//! Names and paths of spool entries.
//!
//! Every message lives in one file, named by a fresh identifier and the
//! suffix `.eml`, in one of two directories: `pending` or `failed`.

use vstd::prelude::*;
use vstd::string::*;

verus! {

/// The directory of the messages that await delivery, relative to the
/// daemon's working directory.
pub const PENDING_DIRECTORY: &'static str = "pending";

/// The directory of the messages whose delivery failed.
pub const FAILED_DIRECTORY: &'static str = "failed";

/// Text of the directory that holds the messages awaiting delivery,
/// with its separator.
pub open spec fn pending_prefix() -> Seq<char> {
    "pending/"@
}

/// Text of the directory that holds the messages whose delivery failed,
/// with its separator.
pub open spec fn failed_prefix() -> Seq<char> {
    "failed/"@
}

/// The suffix that marks a spool file as an email.
pub open spec fn mail_suffix() -> Seq<char> {
    ".eml"@
}

/// The path of the entry `name` in the pending area.
pub open spec fn pending_path_of(name: Seq<char>) -> Seq<char> {
    pending_prefix() + name
}

/// The path of the entry `name` in the failed area.
pub open spec fn failed_path_of(name: Seq<char>) -> Seq<char> {
    failed_prefix() + name
}

/// The file name of the message with identifier `id`.
pub open spec fn mail_name_of(id: Seq<char>) -> Seq<char> {
    id + mail_suffix()
}

/// The texts of a sequence of strings.
pub open spec fn texts(strings: Seq<String>) -> Seq<Seq<char>> {
    Seq::new(strings.len(), |i: int| strings[i]@)
}

/// A lower-case hexadecimal digit.
pub open spec fn is_lower_hex(c: char) -> bool {
    ('0' <= c && c <= '9') || ('a' <= c && c <= 'f')
}

/// The positions of the four hyphens in an identifier.
pub open spec fn is_hyphen_position(i: int) -> bool {
    i == 8 || i == 13 || i == 18 || i == 23
}

/// The shape of a message identifier: 36 characters, lower-case
/// hexadecimal digits in five groups of 8, 4, 4, 4 and 12 separated by
/// hyphens, the third group starting with the version digit `4` and the
/// fourth with one of `8`, `9`, `a`, `b`.
pub open spec fn is_identifier(id: Seq<char>) -> bool {
    &&& id.len() == 36
    &&& forall|i: int| 0 <= i < 36 && is_hyphen_position(i) ==> #[trigger] id[i] == '-'
    &&& forall|i: int| 0 <= i < 36 && !is_hyphen_position(i) ==> is_lower_hex(#[trigger] id[i])
    &&& id[14] == '4'
    &&& (id[19] == '8' || id[19] == '9' || id[19] == 'a' || id[19] == 'b')
}

/// Whether `name` is the file name of a message that this library minted.
pub open spec fn is_mail_name(name: Seq<char>) -> bool {
    exists|id: Seq<char>| is_identifier(id) && name == #[trigger] mail_name_of(id)
}

/// Whether the text `path` starts with an underscore.
pub open spec fn ignored(path: Seq<char>) -> bool {
    path.len() > 0 && path[0] == '_'
}

/// Draws a fresh random identifier from `uuid::Uuid::new_v4` and renders it
/// with the type's `Display`, which writes the hyphenated lower-case form.
/// The contract claims the shape of that text and nothing of its value:
/// two calls may give any two identifiers. The draw reads the system's
/// random source.
#[verifier::external_body]
fn draw_identifier() -> (id: String)
    ensures
        is_identifier(id@),
{
    uuid::Uuid::new_v4().to_string()
}

/// Mints the file name of a new message: a fresh identifier followed by
/// `.eml`.
pub fn fresh_mail_name() -> (name: String)
    ensures
        is_mail_name(name@),
{
    let id = draw_identifier();
    let ghost shape = id@;
    let name = id.concat(".eml");
    assert(name@ == mail_name_of(shape));
    name
}

/// The path of the pending-area file of the entry `name`.
pub fn pending_path(name: &str) -> (path: String)
    ensures
        path@ == pending_path_of(name@),
{
    String::from_str("pending/").concat(name)
}

/// The path of the failed-area file of the entry `name`.
pub fn failed_path(name: &str) -> (path: String)
    ensures
        path@ == failed_path_of(name@),
{
    String::from_str("failed/").concat(name)
}

/// Tells whether the polling sweep passes over `path`: it does so exactly
/// when the path's text begins with an underscore.
pub fn should_ignore_mail(path: &str) -> (skip: bool)
    ensures
        skip == ignored(path@),
{
    if path.unicode_len() == 0 {
        false
    } else {
        path.get_char(0) == '_'
    }
}

/// A path in an area is the area's directory, a separator, and the name.
pub proof fn lemma_path_parts(name: Seq<char>)
    ensures
        pending_path_of(name) == PENDING_DIRECTORY@ + seq!['/'] + name,
        failed_path_of(name) == FAILED_DIRECTORY@ + seq!['/'] + name,
{
    reveal_strlit("pending/");
    reveal_strlit("failed/");
    reveal_strlit("pending");
    reveal_strlit("failed");
    assert(pending_prefix() =~= PENDING_DIRECTORY@ + seq!['/']);
    assert(failed_prefix() =~= FAILED_DIRECTORY@ + seq!['/']);
}

/// Two different entry names never share a path, in either area, and no
/// pending path is a failed path.
pub proof fn lemma_paths_distinct(a: Seq<char>, b: Seq<char>)
    ensures
        pending_path_of(a) == pending_path_of(b) ==> a == b,
        failed_path_of(a) == failed_path_of(b) ==> a == b,
        pending_path_of(a) != failed_path_of(b),
{
    reveal_strlit("pending/");
    reveal_strlit("failed/");
    if pending_path_of(a) == pending_path_of(b) {
        assert(a =~= pending_path_of(a).subrange(8, pending_path_of(a).len() as int));
        assert(b =~= pending_path_of(b).subrange(8, pending_path_of(b).len() as int));
    }
    if failed_path_of(a) == failed_path_of(b) {
        assert(a =~= failed_path_of(a).subrange(7, failed_path_of(a).len() as int));
        assert(b =~= failed_path_of(b).subrange(7, failed_path_of(b).len() as int));
    }
    assert(pending_path_of(a)[0] == 'p');
    assert(failed_path_of(b)[0] == 'f');
}

/// A minted file name is 40 characters long, holds no path separator and
/// does not begin with an underscore or a dot.
pub proof fn lemma_mail_name_shape(name: Seq<char>)
    requires
        is_mail_name(name),
    ensures
        name.len() == 40,
        forall|i: int| 0 <= i < name.len() ==> name[i] != '/',
        !ignored(name),
        name[0] != '.',
{
    reveal_strlit(".eml");
    let id = choose|id: Seq<char>| is_identifier(id) && name == #[trigger] mail_name_of(id);
    assert forall|i: int| 0 <= i < name.len() implies name[i] != '/' by {
        if i < 36 {
            assert(name[i] == id[i]);
        }
    }
    assert(name[0] == id[0]);
    assert(is_lower_hex(id[0]));
}

} // verus!
