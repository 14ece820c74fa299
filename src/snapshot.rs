//! The three-word queries that test programs use to check a device snapshot:
//! `<field> <op> <operand>`.

use vstd::prelude::*;
use crate::hil::{HilDevice, HilState};
use crate::text::{chars_of, parse_i128, signed_within, spells, split_chars, split_on};
pub use crate::unix::SnapshotData;

verus! {

/// A comparison against a snapshot field.
#[derive(Debug, Clone, Copy, PartialEq, Eq, Structural)]
pub enum DslOp {
    SmallerThan(i128),
    GreaterThan(i128),
    Equal(i128),
    NotEqual(i128),
    /// Whether the field is present.
    Is(bool),
}

/// Whether `op` holds of a field value; an absent value meets only `Is(false)`.
pub open spec fn op_holds(op: DslOp, value: Option<i128>) -> bool {
    match op {
        DslOp::SmallerThan(b) => value matches Some(v) && v < b,
        DslOp::GreaterThan(b) => value matches Some(v) && v > b,
        DslOp::Equal(b) => value matches Some(v) && v == b,
        DslOp::NotEqual(b) => value matches Some(v) && v != b,
        DslOp::Is(some) => some == (value is Some),
    }
}

/// The number an operand stands for: `true` 1, `false` 0, `timer` the
/// device's last solve time, else a signed decimal that fits an `i128`.
pub open spec fn operand_value(tok: Seq<char>, timer: u64) -> Option<int> {
    if tok == "true"@ {
        Some(1)
    } else if tok == "false"@ {
        Some(0)
    } else if tok == "timer"@ {
        Some(timer as int)
    } else {
        signed_within(tok, i128::MIN as int, i128::MAX as int)
    }
}

/// The comparison that an operator and operand spell, if any.
pub open spec fn query_op(op: Seq<char>, operand: Seq<char>, timer: u64) -> Option<DslOp> {
    if op == "is"@ {
        if operand == "some"@ {
            Some(DslOp::Is(true))
        } else if operand == "none"@ {
            Some(DslOp::Is(false))
        } else {
            None
        }
    } else {
        match operand_value(operand, timer) {
            Some(v) => if op == "<"@ {
                Some(DslOp::SmallerThan(v as i128))
            } else if op == ">"@ {
                Some(DslOp::GreaterThan(v as i128))
            } else if op == "=="@ {
                Some(DslOp::Equal(v as i128))
            } else if op == "!="@ {
                Some(DslOp::NotEqual(v as i128))
            } else {
                None
            },
            None => None,
        }
    }
}

/// The value of a named snapshot field (absent for an empty optional), or
/// `None` for an unknown name. A missing penalty reads as 0.
pub open spec fn field_value(name: Seq<char>, s: SnapshotData) -> Option<Option<i128>> {
    if name == "scene"@ {
        Some(Some(s.scene as i128))
    } else if name == "inspection_time"@ {
        Some(
            match s.inspection_time {
                Some(t) => Some(t as i128),
                None => None,
            },
        )
    } else if name == "solve_time"@ {
        Some(
            match s.solve_time {
                Some(t) => Some(t as i128),
                None => None,
            },
        )
    } else if name == "penalty"@ {
        Some(
            Some(
                match s.penalty {
                    Some(p) => p as i128,
                    None => 0,
                },
            ),
        )
    } else if name == "time_confirmed"@ {
        Some(Some(if s.time_confirmed { 1 } else { 0 }))
    } else if name == "possible_groups"@ {
        Some(Some(s.possible_groups as i128))
    } else if name == "group_selected_idx"@ {
        Some(Some(s.group_selected_idx as i128))
    } else if name == "current_competitor"@ {
        Some(
            match s.current_competitor {
                Some(c) => Some(c as i128),
                None => None,
            },
        )
    } else if name == "current_judge"@ {
        Some(
            match s.current_judge {
                Some(c) => Some(c as i128),
                None => None,
            },
        )
    } else {
        None
    }
}

/// The outcome of a query: `Err` when it is not three space-separated words,
/// names no known field, or has an unknown operator or operand.
pub open spec fn query_result(q: Seq<char>, s: SnapshotData, timer: u64) -> Result<bool, ()> {
    let w = split_on(q, ' ');
    if w.len() != 3 {
        Err(())
    } else {
        match (query_op(w[1], w[2], timer), field_value(w[0], s)) {
            (Some(op), Some(v)) => Ok(op_holds(op, v)),
            _ => Err(()),
        }
    }
}

impl DslOp {
    pub fn check_against(&self, value: Option<i128>) -> (r: bool)
        ensures
            r == op_holds(*self, value),
    {
        match self {
            DslOp::SmallerThan(b) => match value {
                Some(v) => v < *b,
                None => false,
            },
            DslOp::GreaterThan(b) => match value {
                Some(v) => v > *b,
                None => false,
            },
            DslOp::Equal(b) => match value {
                Some(v) => v == *b,
                None => false,
            },
            DslOp::NotEqual(b) => match value {
                Some(v) => v != *b,
                None => false,
            },
            DslOp::Is(some) => *some == value.is_some(),
        }
    }
}

fn read_operand(tok: &Vec<char>, timer: u64) -> (r: Option<i128>)
    ensures
        r matches Some(v) ==> operand_value(tok@, timer) == Some(v as int),
        r is None ==> operand_value(tok@, timer) is None,
{
    if spells(tok, "true") {
        Some(1)
    } else if spells(tok, "false") {
        Some(0)
    } else if spells(tok, "timer") {
        Some(timer as i128)
    } else {
        parse_i128(tok)
    }
}

fn read_op(op: &Vec<char>, operand: &Vec<char>, timer: u64) -> (r: Option<DslOp>)
    ensures
        r == query_op(op@, operand@, timer),
{
    if spells(op, "is") {
        if spells(operand, "some") {
            Some(DslOp::Is(true))
        } else if spells(operand, "none") {
            Some(DslOp::Is(false))
        } else {
            None
        }
    } else {
        match read_operand(operand, timer) {
            Some(v) => if spells(op, "<") {
                Some(DslOp::SmallerThan(v))
            } else if spells(op, ">") {
                Some(DslOp::GreaterThan(v))
            } else if spells(op, "==") {
                Some(DslOp::Equal(v))
            } else if spells(op, "!=") {
                Some(DslOp::NotEqual(v))
            } else {
                None
            },
            None => None,
        }
    }
}

fn opt_wide(v: Option<u64>) -> (r: Option<i128>)
    ensures
        r == (match v {
            Some(t) => Some(t as i128),
            None => None::<i128>,
        }),
{
    match v {
        Some(t) => Some(t as i128),
        None => None,
    }
}

fn read_field(name: &Vec<char>, s: &SnapshotData) -> (r: Option<Option<i128>>)
    ensures
        r == field_value(name@, *s),
{
    if spells(name, "scene") {
        Some(Some(s.scene as i128))
    } else if spells(name, "inspection_time") {
        Some(opt_wide(s.inspection_time))
    } else if spells(name, "solve_time") {
        Some(opt_wide(s.solve_time))
    } else if spells(name, "penalty") {
        Some(
            Some(
                match s.penalty {
                    Some(p) => p as i128,
                    None => 0,
                },
            ),
        )
    } else if spells(name, "time_confirmed") {
        Some(Some(if s.time_confirmed { 1 } else { 0 }))
    } else if spells(name, "possible_groups") {
        Some(Some(s.possible_groups as i128))
    } else if spells(name, "group_selected_idx") {
        Some(Some(s.group_selected_idx as i128))
    } else if spells(name, "current_competitor") {
        Some(opt_wide(s.current_competitor))
    } else if spells(name, "current_judge") {
        Some(opt_wide(s.current_judge))
    } else {
        None
    }
}

/// Evaluates one query against `snapshot`; `timer` stands for the device's
/// last solve time.
pub fn snapshot_dsl_check(
    hil_state: &HilState,
    device: &HilDevice,
    snapshot: &SnapshotData,
    check: &str,
) -> (r: Result<bool, ()>)
    ensures
        r == query_result(check@, *snapshot, device.last_solve_time),
{
    let words = split_chars(&chars_of(check), ' ');
    if words.len() != 3 {
        return Err(());
    }
    let op = read_op(&words[1], &words[2], device.last_solve_time);
    let value = read_field(&words[0], snapshot);
    match (op, value) {
        (Some(op), Some(v)) => Ok(op.check_against(v)),
        _ => Err(()),
    }
}

} // verus!
