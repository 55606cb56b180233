use vstd::prelude::*;

verus! {

/// The number of characters in a task id.
pub const TASK_ID_LENGTH: usize = 21;

/// A character that is safe in a URL and in a file name: a letter or digit of
/// ASCII, `_` or `-`.
pub open spec fn is_safe_char(c: char) -> bool {
    ||| c == '_'
    ||| c == '-'
    ||| '0' <= c <= '9'
    ||| 'a' <= c <= 'z'
    ||| 'A' <= c <= 'Z'
}

/// What every task id looks like.
pub open spec fn is_task_id(id: Seq<char>) -> bool {
    &&& id.len() == TASK_ID_LENGTH
    &&& forall|i: int| 0 <= i < id.len() ==> is_safe_char(#[trigger] id[i])
}

/// Calls `nanoid::format` with the crate's default random source and its `SAFE`
/// alphabet. Trusted: the id has `length` characters, each of them from that
/// alphabet. Which characters they are is left to chance. It never returns for a
/// length of zero, and its arithmetic overflows above an eighth of `usize::MAX`.
#[verifier::external_body]
fn random_safe_id(length: usize) -> (id: String)
    requires
        0 < length <= usize::MAX / 8,
    ensures
        id@.len() == length,
        forall|i: int| 0 <= i < id@.len() ==> is_safe_char(#[trigger] id@[i]),
{
    nanoid::format(nanoid::rngs::default, &nanoid::alphabet::SAFE, length)
}

/// `id` is what a draw of `TASK_ID_LENGTH` characters from the random source returned.
pub closed spec fn is_drawn(id: String) -> bool {
    call_ensures(random_safe_id, (TASK_ID_LENGTH,), id)
}

/// A fresh random id for a task: the outcome of a draw of its own.
pub fn new_task_id() -> (id: String)
    ensures
        is_task_id(id@),
        is_drawn(id),
{
    random_safe_id(TASK_ID_LENGTH)
}

/// A drawn id comes from the random source, and from nowhere else.
proof fn law_drawn_ids_come_from_the_random_source(id: String)
    ensures
        is_drawn(id) <==> call_ensures(random_safe_id, (21usize,), id),
{
}

/// Every drawn id looks like a task id: 21 characters, each a letter or digit of ASCII,
/// `_` or `-`. So it can stand in a URL and in a file name as it is.
pub proof fn law_drawn_ids_are_safe(id: String)
    requires
        is_drawn(id),
    ensures
        is_task_id(id@),
        id@.len() == 21,
        forall|i: int|
            #![trigger id@[i]]
            0 <= i < id@.len() ==> (id@[i] == '_' || id@[i] == '-' || '0' <= id@[i] <= '9' || 'a'
                <= id@[i] <= 'z' || 'A' <= id@[i] <= 'Z'),
{
}

} // verus!
