use vstd::prelude::*;

use super::context::{Context, Status};

verus! {

/// A context the registry-scan policy may switch to.
pub open spec fn runnable_spec(c: Context) -> bool {
    !c.running && c.status == Status::Runnable
}

/// Some context other than the current one is runnable.
pub open spec fn any_other_runnable(s: Seq<Context>, cur: usize) -> bool {
    exists|j: int| 0 <= j < s.len() && runnable_spec(#[trigger] s[j]) && s[j].id != cur
}

/// Some runnable context has an identity above `cur`.
pub open spec fn any_runnable_above(s: Seq<Context>, cur: usize) -> bool {
    exists|j: int| 0 <= j < s.len() && runnable_spec(#[trigger] s[j]) && s[j].id > cur
}

/// `s[i]` is where the registry-scan policy goes from `cur`: the runnable
/// context with the smallest identity above `cur`, or, with none above,
/// the runnable one with the smallest identity below it.
pub open spec fn is_next_runnable(s: Seq<Context>, cur: usize, i: int) -> bool {
    &&& 0 <= i < s.len()
    &&& runnable_spec(s[i])
    &&& if any_runnable_above(s, cur) {
        &&& s[i].id > cur
        &&& forall|j: int| 0 <= j < s.len() && runnable_spec(#[trigger] s[j]) && s[j].id > cur ==> s[i].id <= s[j].id
    } else {
        &&& s[i].id < cur
        &&& forall|j: int| 0 <= j < s.len() && runnable_spec(#[trigger] s[j]) && s[j].id < cur ==> s[i].id <= s[j].id
    }
}

pub fn runnable(context: &Context) -> (r: bool)
    ensures
        r == runnable_spec(*context),
{
    !context.running && context.status == Status::Runnable
}

/// Finds where the registry-scan policy goes from the context `cur`.
pub fn next_runnable(contexts: &Vec<Context>, cur: usize) -> (r: Option<usize>)
    ensures
        r.is_none() <==> !any_other_runnable(contexts@, cur),
        r matches Some(i) ==> is_next_runnable(contexts@, cur, i as int),
{
    let n = contexts.len();
    let mut above: Option<usize> = None;
    let mut below: Option<usize> = None;
    let mut i: usize = 0;
    while i < n
        invariant
            n == contexts@.len(),
            0 <= i <= n,
            above matches Some(a) ==> {
                &&& a < i
                &&& runnable_spec(contexts@[a as int])
                &&& contexts@[a as int].id > cur
                &&& forall|j: int| 0 <= j < i && runnable_spec(#[trigger] contexts@[j]) && contexts@[j].id > cur
                    ==> contexts@[a as int].id <= contexts@[j].id
            },
            above.is_none() ==> forall|j: int| 0 <= j < i && runnable_spec(#[trigger] contexts@[j])
                ==> contexts@[j].id <= cur,
            below matches Some(b) ==> {
                &&& b < i
                &&& runnable_spec(contexts@[b as int])
                &&& contexts@[b as int].id < cur
                &&& forall|j: int| 0 <= j < i && runnable_spec(#[trigger] contexts@[j]) && contexts@[j].id < cur
                    ==> contexts@[b as int].id <= contexts@[j].id
            },
            below.is_none() ==> forall|j: int| 0 <= j < i && runnable_spec(#[trigger] contexts@[j])
                ==> contexts@[j].id >= cur,
        decreases n - i,
    {
        let c = &contexts[i];
        if runnable(c) {
            if c.id > cur {
                match above {
                    Some(a) => {
                        if c.id < contexts[a].id {
                            above = Some(i);
                        }
                    },
                    None => {
                        above = Some(i);
                    },
                }
            } else if c.id < cur {
                match below {
                    Some(b) => {
                        if c.id < contexts[b].id {
                            below = Some(i);
                        }
                    },
                    None => {
                        below = Some(i);
                    },
                }
            }
        }
        i = i + 1;
    }
    match above {
        Some(a) => Some(a),
        None => below,
    }
}

} // verus!
