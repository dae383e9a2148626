//! The second assembly pass: rewrites every still-symbolic jump or call
//! target into the concrete address the completed label map holds.
//! Forward references are legal, so a label that was still undefined at
//! parse time resolves here; one that is never defined is a fatal error,
//! raised at resolution time and leaving the program untouched.

use vstd::prelude::*;
use vstd::pervasive::VecAdditionalExecFns;
use crate::errors::AsmError;
use crate::instr_repr::{Operand, OperandView, Verb, VerbView};
use crate::name_map::NameMap;

verus! {

/// Whether a target operand can be resolved: a label must be in the map.
pub open spec fn op_resolvable(o: OperandView, labels: Map<Seq<char>, u16>) -> bool {
    match o {
        OperandView::Label(n) => labels.contains_key(n),
        _ => true,
    }
}

/// A target operand with any label replaced by its address.
pub open spec fn target_resolved(o: OperandView, labels: Map<Seq<char>, u16>) -> OperandView
    recommends
        op_resolvable(o, labels),
{
    match o {
        OperandView::Label(n) => OperandView::Imm(labels[n]),
        _ => o,
    }
}

/// Whether every symbolic target of an instruction is in the map. Only
/// jumps and calls carry targets.
pub open spec fn verb_resolvable(v: VerbView, labels: Map<Seq<char>, u16>) -> bool {
    match v {
        VerbView::Jmp(o) => op_resolvable(o, labels),
        VerbView::Jz(o, _) => op_resolvable(o, labels),
        VerbView::Jnz(o, _) => op_resolvable(o, labels),
        VerbView::Jpos(o, _) => op_resolvable(o, labels),
        VerbView::Jposz(o, _) => op_resolvable(o, labels),
        VerbView::Jneg(o, _) => op_resolvable(o, labels),
        VerbView::Jnegz(o, _) => op_resolvable(o, labels),
        VerbView::Call(o) => op_resolvable(o, labels),
        _ => true,
    }
}

/// An instruction with its target, if any, resolved.
pub open spec fn resolve_verb(v: VerbView, labels: Map<Seq<char>, u16>) -> VerbView
    recommends
        verb_resolvable(v, labels),
{
    match v {
        VerbView::Jmp(o) => VerbView::Jmp(target_resolved(o, labels)),
        VerbView::Jz(o, r) => VerbView::Jz(target_resolved(o, labels), r),
        VerbView::Jnz(o, r) => VerbView::Jnz(target_resolved(o, labels), r),
        VerbView::Jpos(o, r) => VerbView::Jpos(target_resolved(o, labels), r),
        VerbView::Jposz(o, r) => VerbView::Jposz(target_resolved(o, labels), r),
        VerbView::Jneg(o, r) => VerbView::Jneg(target_resolved(o, labels), r),
        VerbView::Jnegz(o, r) => VerbView::Jnegz(target_resolved(o, labels), r),
        VerbView::Call(o) => VerbView::Call(target_resolved(o, labels)),
        _ => v,
    }
}

/// Whether the whole program can be resolved.
pub open spec fn all_resolvable(vs: Seq<VerbView>, labels: Map<Seq<char>, u16>) -> bool {
    forall|i: int| 0 <= i < vs.len() ==> verb_resolvable(#[trigger] vs[i], labels)
}

/// Rewrites every symbolic jump or call target to its address. A label
/// that the map does not hold is a fatal `UnresolvedLabel` error; the
/// program is then left exactly as it was, with no partial rewrite.
pub fn resolve_labels(instrs: &mut Vec<Verb>, label_map: &NameMap) -> (r: Result<(), AsmError>)
    requires
        forall|i: int|
            0 <= i < old(instrs).deep_view().len() ==> (#[trigger] old(instrs).deep_view()[i]).wf(),
    ensures
        match r {
            Ok(()) => {
                &&& all_resolvable(old(instrs).deep_view(), label_map@)
                &&& final(instrs).deep_view().len() == old(instrs).deep_view().len()
                &&& forall|i: int|
                    0 <= i < old(instrs).deep_view().len() ==> final(instrs).deep_view()[i]
                        == resolve_verb(#[trigger] old(instrs).deep_view()[i], label_map@)
                &&& forall|i: int|
                    0 <= i < final(instrs).deep_view().len() ==> (#[trigger] final(instrs).deep_view()[i]).wf() && final(instrs).deep_view()[i].is_resolved()
            },
            Err(e) => {
                &&& e == AsmError::UnresolvedLabel
                &&& !all_resolvable(old(instrs).deep_view(), label_map@)
                &&& final(instrs)@ == old(instrs)@
            },
        },
{
    let n = instrs.len();
    let mut i: usize = 0;
    while i < n
        invariant
            n == instrs@.len(),
            forall|j: int|
                0 <= j < i ==> verb_resolvable(#[trigger] instrs.deep_view()[j], label_map@),
        decreases n - i,
    {
        let missing: bool = match &instrs[i] {
            Verb::Jmp(Operand::Label(name)) => label_map.get(name.as_str()).is_none(),
            Verb::Jz(Operand::Label(name), _) => label_map.get(name.as_str()).is_none(),
            Verb::Jnz(Operand::Label(name), _) => label_map.get(name.as_str()).is_none(),
            Verb::Jpos(Operand::Label(name), _) => label_map.get(name.as_str()).is_none(),
            Verb::Jposz(Operand::Label(name), _) => label_map.get(name.as_str()).is_none(),
            Verb::Jneg(Operand::Label(name), _) => label_map.get(name.as_str()).is_none(),
            Verb::Jnegz(Operand::Label(name), _) => label_map.get(name.as_str()).is_none(),
            Verb::Call(Operand::Label(name)) => label_map.get(name.as_str()).is_none(),
            _ => false,
        };
        if missing {
            proof {
                assert(!verb_resolvable(instrs.deep_view()[i as int], label_map@));
            }
            return Err(AsmError::UnresolvedLabel);
        }
        i = i + 1;
    }
    let ghost pre = instrs.deep_view();
    let mut i: usize = 0;
    while i < n
        invariant
            n == instrs@.len(),
            pre.len() == n,
            all_resolvable(pre, label_map@),
            forall|j: int| 0 <= j < pre.len() ==> (#[trigger] pre[j]).wf(),
            forall|j: int| i <= j < n ==> instrs.deep_view()[j] == pre[j],
            forall|j: int|
                0 <= j < i ==> instrs.deep_view()[j] == resolve_verb(
                    #[trigger] pre[j],
                    label_map@,
                ),
        decreases n - i,
    {
        let replacement: Option<Verb> = match &instrs[i] {
            Verb::Jmp(Operand::Label(name)) => match label_map.get(name.as_str()) {
                Some(addr) => Some(Verb::Jmp(Operand::Imm(addr))),
                None => vstd::pervasive::unreached(),
            },
            Verb::Jz(Operand::Label(name), o2) => match label_map.get(name.as_str()) {
                Some(addr) => Some(Verb::Jz(Operand::Imm(addr), Operand::Reg(o2.to_reg()))),
                None => vstd::pervasive::unreached(),
            },
            Verb::Jnz(Operand::Label(name), o2) => match label_map.get(name.as_str()) {
                Some(addr) => Some(Verb::Jnz(Operand::Imm(addr), Operand::Reg(o2.to_reg()))),
                None => vstd::pervasive::unreached(),
            },
            Verb::Jpos(Operand::Label(name), o2) => match label_map.get(name.as_str()) {
                Some(addr) => Some(Verb::Jpos(Operand::Imm(addr), Operand::Reg(o2.to_reg()))),
                None => vstd::pervasive::unreached(),
            },
            Verb::Jposz(Operand::Label(name), o2) => match label_map.get(name.as_str()) {
                Some(addr) => Some(Verb::Jposz(Operand::Imm(addr), Operand::Reg(o2.to_reg()))),
                None => vstd::pervasive::unreached(),
            },
            Verb::Jneg(Operand::Label(name), o2) => match label_map.get(name.as_str()) {
                Some(addr) => Some(Verb::Jneg(Operand::Imm(addr), Operand::Reg(o2.to_reg()))),
                None => vstd::pervasive::unreached(),
            },
            Verb::Jnegz(Operand::Label(name), o2) => match label_map.get(name.as_str()) {
                Some(addr) => Some(Verb::Jnegz(Operand::Imm(addr), Operand::Reg(o2.to_reg()))),
                None => vstd::pervasive::unreached(),
            },
            Verb::Call(Operand::Label(name)) => match label_map.get(name.as_str()) {
                Some(addr) => Some(Verb::Call(Operand::Imm(addr))),
                None => vstd::pervasive::unreached(),
            },
            _ => None,
        };
        match replacement {
            Some(v) => {
                instrs.set(i, v);
            },
            None => {
                proof {
                    assert(instrs.deep_view()[i as int] == resolve_verb(
                        pre[i as int],
                        label_map@,
                    ));
                }
            },
        }
        i = i + 1;
    }
    proof {
        assert forall|i: int| 0 <= i < n implies (#[trigger] instrs.deep_view()[i]).wf()
            && instrs.deep_view()[i].is_resolved() by {
            assert(instrs.deep_view()[i] == resolve_verb(pre[i], label_map@));
            assert(pre[i].wf());
        }
    }
    Ok(())
}

} // verus!
