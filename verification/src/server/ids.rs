//! The ids of completions.
use vstd::prelude::*;

verus! {

/// A hexadecimal digit in lower case.
pub open spec fn is_hex(c: char) -> bool {
    '0' <= c <= '9' || 'a' <= c <= 'f'
}

/// A place in the text of a UUID where a hyphen stands.
pub open spec fn is_hyphen_place(i: int) -> bool {
    i == 8 || i == 13 || i == 18 || i == 23
}

/// The text of a random UUID: 32 digits in five groups, with the digits that mark its version
/// and its variant.
pub open spec fn is_uuid_text(text: Seq<char>) -> bool {
    &&& text.len() == 36
    &&& forall|i: int|
        0 <= i < 36 ==> if is_hyphen_place(i) {
            #[trigger] text[i] == '-'
        } else {
            is_hex(text[i])
        }
    &&& text[14] == '4'
    &&& text[19] == '8' || text[19] == '9' || text[19] == 'a' || text[19] == 'b'
}

/// Calls `uuid::Uuid::new_v4` and writes the UUID out: 36 characters in lower case, with hyphens
/// in their places, version 4 and the variant of RFC 4122. Its other digits are random, and
/// nothing is claimed of them.
#[verifier::external_body]
fn random_uuid() -> (text: String)
    ensures
        is_uuid_text(text@),
{
    uuid::Uuid::new_v4().to_string()
}

/// `id` is the id of a completion that has this UUID.
pub open spec fn is_completion_id(id: Seq<char>, uuid: Seq<char>) -> bool {
    id == "chatcmpl-"@ + uuid
}

/// The id of the completion that has this UUID.
pub fn id_with(uuid: &str) -> (id: String)
    ensures
        is_completion_id(id@, uuid@),
{
    let mut id = "chatcmpl-".to_owned();
    id.append(uuid);
    id
}

/// A fresh id for a completion.
pub fn completion_id() -> (id: String)
    ensures
        exists|uuid: Seq<char>| #[trigger] is_completion_id(id@, uuid) && is_uuid_text(uuid),
{
    let uuid = random_uuid();
    id_with(uuid.as_str())
}

/// An id is the text `chatcmpl-` and the UUID behind it.
pub proof fn law_id_holds_its_uuid(id: Seq<char>, uuid: Seq<char>)
    requires
        is_completion_id(id, uuid),
    ensures
        id.len() == 9 + uuid.len(),
        id.take(9) == "chatcmpl-"@,
        id.skip(9) == uuid,
{
    reveal_strlit("chatcmpl-");
    assert(id.take(9) =~= "chatcmpl-"@);
    assert(id.skip(9) =~= uuid);
}

} // verus!
