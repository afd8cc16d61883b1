use crate::error::{is_host_error, is_type_error, kind_message, offsets_message, StringpyErr};
use vstd::prelude::*;

verus! {

/// The kinds of element that an array exchanged with the host can hold.
#[derive(Clone, Copy, Debug, PartialEq, Eq, Structural)]
pub enum ElementKind {
    Utf8,
    Int32,
    Boolean,
    List,
    Other,
}

/// Checks, where a column is taken from the host and before any row is read,
/// that the array holds the kind of element that the kernel works on.
pub fn expect_kind(found: ElementKind, expected: ElementKind) -> (r: Result<(), StringpyErr>)
    ensures
        r is Ok <==> found == expected,
        r matches Err(e) ==> is_type_error(e, kind_message()),
{
    if found == expected {
        Ok(())
    } else {
        Err(
            StringpyErr::TypeMismatch(
                String::from_str("the array does not hold the expected kind of element"),
            ),
        )
    }
}

/// Whether every offset fits the 32 bits that the host gives to an offset.
pub open spec fn fit_host(offsets: Seq<usize>) -> bool {
    forall|i: int| 0 <= i < offsets.len() ==> #[trigger] offsets[i] <= i32::MAX
}

/// The offsets of a list column as the host holds them, in 32 bits each. Where
/// one does not fit, the column cannot be handed over.
pub fn host_offsets(offsets: &Vec<usize>) -> (r: Result<Vec<i32>, StringpyErr>)
    ensures
        r is Ok <==> fit_host(offsets@),
        r matches Err(e) ==> is_host_error(e, offsets_message()),
        r matches Ok(out) ==> out@.len() == offsets@.len() && forall|i: int|
            0 <= i < offsets@.len() ==> #[trigger] out@[i] == offsets@[i],
{
    let mut out: Vec<i32> = Vec::new();
    let mut i: usize = 0;
    while i < offsets.len()
        invariant
            i <= offsets.len(),
            out@.len() == i,
            forall|j: int| 0 <= j < i ==> #[trigger] offsets@[j] <= i32::MAX,
            forall|j: int| 0 <= j < i ==> #[trigger] out@[j] == offsets@[j],
        decreases offsets.len() - i,
    {
        if offsets[i] > i32::MAX as usize {
            return Err(
                StringpyErr::HostBoundaryError(
                    String::from_str("the list column is too long for 32-bit offsets"),
                ),
            );
        }
        out.push(offsets[i] as i32);
        i += 1;
    }
    Ok(out)
}

} // verus!
