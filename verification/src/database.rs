use vstd::prelude::*;

use crate::aas_interfaces::aas_find_one_result;
use crate::operation::FindOutcome;
use crate::value::{removed, Value, ValueView};

verus! {

/// The result `database::aas_find_one` gives for the lookup's outcome: the
/// found document without its `_id`, as a JSON value; "Document not found";
/// or the driver's error.
pub fn aas_find_one_value(outcome: FindOutcome) -> (r: Result<Value, String>)
    requires
        outcome matches FindOutcome::Found(d) ==> d.wf(),
    ensures
        match outcome {
            FindOutcome::Found(d) => r matches Ok(v) && v@ == ValueView::Doc(removed(d@, "_id"@)),
            FindOutcome::Missing => r matches Err(e) && e@ == "Document not found"@,
            FindOutcome::Failed(msg) => r matches Err(e) && e@ == "Error finding document: "@
                + msg@,
        },
{
    match aas_find_one_result(outcome) {
        Ok(d) => Ok(Value::Doc(d)),
        Err(e) => Err(e),
    }
}

} // verus!
