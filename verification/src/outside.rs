//! The calls this library makes into outside crates, with what it trusts of them.
use vstd::prelude::*;
use itertools::Itertools;

verus! {

/// `itertools::Itertools::sorted_by_key`, on `(key, position)` pairs sorted by key.
///
/// The crate documents the sort as stable: elements of equal keys keep their
/// order. Since each pair carries its own position, the result is the input
/// ordered by key, and among equal keys by position.
#[verifier::external_body]
pub(crate) fn sorted_by_key_stable(pairs: Vec<(u64, usize)>) -> (sorted: Vec<(u64, usize)>)
    requires
        forall|i: int| 0 <= i < pairs.len() ==> pairs[i].1 == i,
    ensures
        sorted.len() == pairs.len(),
        forall|i: int|
            0 <= i < sorted.len() ==> (#[trigger] sorted[i]).1 < pairs.len() && sorted[i]
                == pairs[sorted[i].1 as int],
        forall|i: int, j: int|
            0 <= i < j < sorted.len() ==> (#[trigger] sorted[i]).0 < (#[trigger] sorted[j]).0 || (
            sorted[i].0 == sorted[j].0 && sorted[i].1 < sorted[j].1),
{
    pairs.into_iter().sorted_by_key(|pair| pair.0).collect()
}

/// The JavaScript value type of `wasm_bindgen`, carried through as an opaque value.
#[verifier::external_type_specification]
#[verifier::external_body]
pub struct ExJsValue(wasm_bindgen::JsValue);

/// The error type of `serde_plain`.
#[verifier::external_type_specification]
#[verifier::external_body]
pub struct ExSerdePlainError(serde_plain::Error);

/// `Clone::clone` of `wasm_bindgen::JsValue`: another handle to the same
/// JavaScript value. Nothing of it can be stated here, as the type is opaque.
pub assume_specification[ <wasm_bindgen::JsValue as Clone>::clone ](value: &wasm_bindgen::JsValue) -> wasm_bindgen::JsValue;

/// `Clone::clone` of `Result`: a result of the same variant, holding a clone of
/// what the original holds.
pub assume_specification<T: Clone, E: Clone>[ <Result<T, E> as Clone>::clone ](
    result: &Result<T, E>,
) -> (copy: Result<T, E>)
    ensures
        result is Ok ==> copy is Ok && cloned::<T>(result->Ok_0, copy->Ok_0),
        result is Err ==> copy is Err && cloned::<E>(result->Err_0, copy->Err_0),
;

/// What `inflector`'s `to_class_case` makes of a text: its words joined in
/// class case, the last word in the singular.
pub uninterp spec fn inflector_class_case(text: Seq<char>) -> Seq<char>;

/// `inflector::cases::classcase::to_class_case`: the class-case form of `text`, a
/// function of `text` alone.
#[verifier::external_body]
pub(crate) fn to_class_case(text: &str) -> (class_case: String)
    ensures
        class_case@ == inflector_class_case(text@),
{
    inflector::cases::classcase::to_class_case(text)
}

/// `serde_plain::from_str::<String>`: a plain text read as a `String` is the
/// text itself (the deserializer hands the text to `String`'s visitor, which
/// copies it), so it never fails.
#[verifier::external_body]
pub(crate) fn plain_string_from_str(text: &str) -> (parsed: Result<String, serde_plain::Error>)
    ensures
        parsed is Ok,
        parsed.unwrap()@ == text@,
{
    serde_plain::from_str::<String>(text)
}

} // verus!
