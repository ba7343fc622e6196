//! The fixed-capacity vectors of `heapless` that hold the fields of a date
//! header: up to eight whitespace-separated fields, and up to four
//! colon-separated parts of the time of day.
use vstd::prelude::*;

verus! {

#[verifier::external_type_specification]
#[verifier::external_body]
#[verifier::reject_recursive_types(T)]
pub struct ExHeaplessVec<T, const N: usize>(heapless::Vec<T, N>);

/// The strings held by a vector of date fields, in order.
pub uninterp spec fn date_fields(v: heapless::Vec<&str, 8>) -> Seq<Seq<char>>;

/// The strings held by a vector of time parts, in order.
pub uninterp spec fn time_parts(v: heapless::Vec<&str, 4>) -> Seq<Seq<char>>;

/// Calls `heapless::Vec::new`, which makes an empty vector.
#[verifier::external_body]
pub(crate) fn date_fields_new<'a>() -> (v: heapless::Vec<&'a str, 8>)
    ensures
        date_fields(v) == Seq::<Seq<char>>::empty(),
{
    heapless::Vec::new()
}

/// Calls `heapless::Vec::push`: it appends the item while fewer than the
/// capacity (eight) are held, and otherwise hands it back and leaves the
/// vector as it was.
#[verifier::external_body]
pub(crate) fn date_fields_push<'a>(v: &mut heapless::Vec<&'a str, 8>, s: &'a str) -> (ok: bool)
    ensures
        ok == (date_fields(*old(v)).len() < 8),
        ok ==> date_fields(*final(v)) == date_fields(*old(v)).push(s@),
        !ok ==> date_fields(*final(v)) == date_fields(*old(v)),
{
    v.push(s).is_ok()
}

/// Calls `heapless::Vec::as_slice`, which gives the held items in order.
#[verifier::external_body]
pub(crate) fn date_fields_slice<'a, 'b>(v: &'b heapless::Vec<&'a str, 8>) -> (r: &'b [&'a str])
    ensures
        r@.len() == date_fields(*v).len(),
        forall|i: int| 0 <= i < r@.len() ==> (#[trigger] r@[i])@ == date_fields(*v)[i],
{
    v.as_slice()
}

/// Calls `heapless::Vec::new`, which makes an empty vector.
#[verifier::external_body]
pub(crate) fn time_parts_new<'a>() -> (v: heapless::Vec<&'a str, 4>)
    ensures
        time_parts(v) == Seq::<Seq<char>>::empty(),
{
    heapless::Vec::new()
}

/// Calls `heapless::Vec::push`: it appends the item while fewer than the
/// capacity (four) are held, and otherwise hands it back and leaves the
/// vector as it was.
#[verifier::external_body]
pub(crate) fn time_parts_push<'a>(v: &mut heapless::Vec<&'a str, 4>, s: &'a str) -> (ok: bool)
    ensures
        ok == (time_parts(*old(v)).len() < 4),
        ok ==> time_parts(*final(v)) == time_parts(*old(v)).push(s@),
        !ok ==> time_parts(*final(v)) == time_parts(*old(v)),
{
    v.push(s).is_ok()
}

/// Calls `heapless::Vec::as_slice`, which gives the held items in order.
#[verifier::external_body]
pub(crate) fn time_parts_slice<'a, 'b>(v: &'b heapless::Vec<&'a str, 4>) -> (r: &'b [&'a str])
    ensures
        r@.len() == time_parts(*v).len(),
        forall|i: int| 0 <= i < r@.len() ==> (#[trigger] r@[i])@ == time_parts(*v)[i],
{
    v.as_slice()
}

} // verus!
