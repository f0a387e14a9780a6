//! Proceed-on action sets for multi-program attach points.
//!
//! After a dispatcher slot returns, the dispatcher continues to the next
//! slot only when the return value is in the slot's proceed-on set.
//! Parsing from the wire encoding rejects unknown values and duplicates.

use vstd::prelude::*;

use crate::errors::ParseError;

verus! {

/// An XDP return action a program may proceed on.
#[derive(Clone, Copy, Debug, PartialEq, Eq, Structural)]
pub enum XdpAction {
    Aborted,
    Drop,
    Pass,
    Tx,
    Redirect,
    DispatcherReturn,
}

/// A TC return action a program may proceed on.
#[derive(Clone, Copy, Debug, PartialEq, Eq, Structural)]
pub enum TcAction {
    Unspec,
    Okay,
    Reclassify,
    Shot,
    Pipe,
    Stolen,
    Queued,
    Repeat,
    Redirect,
    Trap,
    DispatcherReturn,
}

/// The wire value of an XDP action.
pub open spec fn xdp_action_value(a: XdpAction) -> i32 {
    match a {
        XdpAction::Aborted => 0,
        XdpAction::Drop => 1,
        XdpAction::Pass => 2,
        XdpAction::Tx => 3,
        XdpAction::Redirect => 4,
        XdpAction::DispatcherReturn => 31,
    }
}

/// The XDP action denoted by a wire value, if any.
pub open spec fn xdp_action_of_value(v: i32) -> Option<XdpAction> {
    if v == 0 {
        Some(XdpAction::Aborted)
    } else if v == 1 {
        Some(XdpAction::Drop)
    } else if v == 2 {
        Some(XdpAction::Pass)
    } else if v == 3 {
        Some(XdpAction::Tx)
    } else if v == 4 {
        Some(XdpAction::Redirect)
    } else if v == 31 {
        Some(XdpAction::DispatcherReturn)
    } else {
        None
    }
}

/// The wire value of a TC action.
pub open spec fn tc_action_value(a: TcAction) -> i32 {
    match a {
        TcAction::Unspec => -1i32,
        TcAction::Okay => 0,
        TcAction::Reclassify => 1,
        TcAction::Shot => 2,
        TcAction::Pipe => 3,
        TcAction::Stolen => 4,
        TcAction::Queued => 5,
        TcAction::Repeat => 6,
        TcAction::Redirect => 7,
        TcAction::Trap => 8,
        TcAction::DispatcherReturn => 30,
    }
}

/// The TC action denoted by a wire value, if any.
pub open spec fn tc_action_of_value(v: i32) -> Option<TcAction> {
    if v == -1i32 {
        Some(TcAction::Unspec)
    } else if v == 0 {
        Some(TcAction::Okay)
    } else if v == 1 {
        Some(TcAction::Reclassify)
    } else if v == 2 {
        Some(TcAction::Shot)
    } else if v == 3 {
        Some(TcAction::Pipe)
    } else if v == 4 {
        Some(TcAction::Stolen)
    } else if v == 5 {
        Some(TcAction::Queued)
    } else if v == 6 {
        Some(TcAction::Repeat)
    } else if v == 7 {
        Some(TcAction::Redirect)
    } else if v == 8 {
        Some(TcAction::Trap)
    } else if v == 30 {
        Some(TcAction::DispatcherReturn)
    } else {
        None
    }
}

/// Whether a wire list parses: every value known, no value repeated.
pub open spec fn xdp_list_ok(vals: Seq<i32>) -> bool {
    &&& forall|i: int| 0 <= i < vals.len() ==> xdp_action_of_value(#[trigger] vals[i]) is Some
    &&& forall|i: int, j: int| #![trigger vals[i], vals[j]] 0 <= i < j < vals.len() ==> vals[i] != vals[j]
}

/// Whether a wire list parses: every value known, no value repeated.
pub open spec fn tc_list_ok(vals: Seq<i32>) -> bool {
    &&& forall|i: int| 0 <= i < vals.len() ==> tc_action_of_value(#[trigger] vals[i]) is Some
    &&& forall|i: int, j: int| #![trigger vals[i], vals[j]] 0 <= i < j < vals.len() ==> vals[i] != vals[j]
}

/// The proceed-on set of an XDP program, ordered as given by the client.
#[derive(Clone, Debug)]
pub struct XdpProceedOn {
    pub actions: Vec<XdpAction>,
}

impl View for XdpProceedOn {
    type V = Seq<XdpAction>;

    open spec fn view(&self) -> Seq<XdpAction> {
        self.actions@
    }
}

impl XdpProceedOn {
    /// No action occurs twice.
    pub open spec fn wf(&self) -> bool {
        forall|i: int, j: int| #![trigger self@[i], self@[j]] 0 <= i < j < self@.len() ==> self@[i] != self@[j]
    }

    /// Parses the wire encoding; fails exactly on an unknown or repeated value.
    pub fn from_int32s(vals: &Vec<i32>) -> (r: Result<XdpProceedOn, ParseError>)
        ensures
            r matches Ok(p) ==> {
                &&& xdp_list_ok(vals@)
                &&& p.wf()
                &&& p@.len() == vals@.len()
                &&& forall|i: int|
                    0 <= i < vals@.len() ==> xdp_action_of_value(vals@[i]) == Some(#[trigger] p@[i])
            },
            r is Err ==> !xdp_list_ok(vals@),
            r matches Err(e) ==> e matches ParseError::InvalidProceedOn { .. },
    {
        let mut actions: Vec<XdpAction> = Vec::new();
        let mut k: usize = 0;
        while k < vals.len()
            invariant
                k <= vals@.len(),
                actions@.len() == k,
                forall|i: int|
                    0 <= i < k ==> xdp_action_of_value(vals@[i]) == Some(#[trigger] actions@[i]),
                forall|i: int, j: int| #![trigger vals@[i], vals@[j]] 0 <= i < j < k ==> vals@[i] != vals@[j],
            decreases vals@.len() - k,
        {
            let v = vals[k];
            let a = match xdp_action_from_value(v) {
                Some(a) => a,
                None => {
                    proof {
                        assert(xdp_action_of_value(vals@[k as int]) is None);
                    }
                    return Err(ParseError::InvalidProceedOn { proceed_on: v });
                },
            };
            let mut j: usize = 0;
            while j < k
                invariant
                    j <= k,
                    k < vals@.len(),
                    v == vals@[k as int],
                    forall|i: int| 0 <= i < j ==> vals@[i] != vals@[k as int],
                decreases k - j,
            {
                if vals[j] == v {
                    proof {
                        assert(vals@[j as int] == vals@[k as int]);
                    }
                    return Err(ParseError::InvalidProceedOn { proceed_on: v });
                }
                j += 1;
            }
            actions.push(a);
            k += 1;
        }
        proof {
            assert forall|i: int| 0 <= i < vals@.len() implies xdp_action_of_value(
                #[trigger] vals@[i],
            ) is Some by {
                assert(xdp_action_of_value(vals@[i]) == Some(actions@[i]));
            }
            assert forall|i: int, j: int|
                #![trigger actions@[i], actions@[j]]
                0 <= i < j < actions@.len() implies actions@[i] != actions@[j] by {
                assert(xdp_action_value(actions@[i]) == vals@[i]);
                assert(xdp_action_value(actions@[j]) == vals@[j]);
            }
        }
        Ok(XdpProceedOn { actions })
    }

    /// The wire encoding of this set.
    pub fn as_action_vec(&self) -> (r: Vec<i32>)
        ensures
            r@.len() == self@.len(),
            forall|i: int| 0 <= i < self@.len() ==> r@[i] == xdp_action_value(#[trigger] self@[i]),
    {
        let mut out: Vec<i32> = Vec::new();
        let mut k: usize = 0;
        while k < self.actions.len()
            invariant
                k <= self@.len(),
                out@.len() == k,
                forall|i: int| 0 <= i < k ==> out@[i] == xdp_action_value(#[trigger] self@[i]),
            decreases self@.len() - k,
        {
            out.push(xdp_action_to_value(self.actions[k]));
            k += 1;
        }
        out
    }
}

impl Default for XdpProceedOn {
    /// The default set: continue on `pass` and on `dispatcher_return`.
    fn default() -> (r: Self)
        ensures
            r@ =~= seq![XdpAction::Pass, XdpAction::DispatcherReturn],
            r.wf(),
    {
        let mut actions: Vec<XdpAction> = Vec::new();
        actions.push(XdpAction::Pass);
        actions.push(XdpAction::DispatcherReturn);
        XdpProceedOn { actions }
    }
}

/// The proceed-on set of a TC program, ordered as given by the client.
#[derive(Clone, Debug)]
pub struct TcProceedOn {
    pub actions: Vec<TcAction>,
}

impl View for TcProceedOn {
    type V = Seq<TcAction>;

    open spec fn view(&self) -> Seq<TcAction> {
        self.actions@
    }
}

impl TcProceedOn {
    /// No action occurs twice.
    pub open spec fn wf(&self) -> bool {
        forall|i: int, j: int| #![trigger self@[i], self@[j]] 0 <= i < j < self@.len() ==> self@[i] != self@[j]
    }

    /// Parses the wire encoding; fails exactly on an unknown or repeated value.
    pub fn from_int32s(vals: &Vec<i32>) -> (r: Result<TcProceedOn, ParseError>)
        ensures
            r matches Ok(p) ==> {
                &&& tc_list_ok(vals@)
                &&& p.wf()
                &&& p@.len() == vals@.len()
                &&& forall|i: int|
                    0 <= i < vals@.len() ==> tc_action_of_value(vals@[i]) == Some(#[trigger] p@[i])
            },
            r is Err ==> !tc_list_ok(vals@),
            r matches Err(e) ==> e matches ParseError::InvalidProceedOn { .. },
    {
        let mut actions: Vec<TcAction> = Vec::new();
        let mut k: usize = 0;
        while k < vals.len()
            invariant
                k <= vals@.len(),
                actions@.len() == k,
                forall|i: int|
                    0 <= i < k ==> tc_action_of_value(vals@[i]) == Some(#[trigger] actions@[i]),
                forall|i: int, j: int| #![trigger vals@[i], vals@[j]] 0 <= i < j < k ==> vals@[i] != vals@[j],
            decreases vals@.len() - k,
        {
            let v = vals[k];
            let a = match tc_action_from_value(v) {
                Some(a) => a,
                None => {
                    proof {
                        assert(tc_action_of_value(vals@[k as int]) is None);
                    }
                    return Err(ParseError::InvalidProceedOn { proceed_on: v });
                },
            };
            let mut j: usize = 0;
            while j < k
                invariant
                    j <= k,
                    k < vals@.len(),
                    v == vals@[k as int],
                    forall|i: int| 0 <= i < j ==> vals@[i] != vals@[k as int],
                decreases k - j,
            {
                if vals[j] == v {
                    proof {
                        assert(vals@[j as int] == vals@[k as int]);
                    }
                    return Err(ParseError::InvalidProceedOn { proceed_on: v });
                }
                j += 1;
            }
            actions.push(a);
            k += 1;
        }
        proof {
            assert forall|i: int| 0 <= i < vals@.len() implies tc_action_of_value(
                #[trigger] vals@[i],
            ) is Some by {
                assert(tc_action_of_value(vals@[i]) == Some(actions@[i]));
            }
            assert forall|i: int, j: int|
                #![trigger actions@[i], actions@[j]]
                0 <= i < j < actions@.len() implies actions@[i] != actions@[j] by {
                assert(tc_action_value(actions@[i]) == vals@[i]);
                assert(tc_action_value(actions@[j]) == vals@[j]);
            }
        }
        Ok(TcProceedOn { actions })
    }

    /// The wire encoding of this set.
    pub fn as_action_vec(&self) -> (r: Vec<i32>)
        ensures
            r@.len() == self@.len(),
            forall|i: int| 0 <= i < self@.len() ==> r@[i] == tc_action_value(#[trigger] self@[i]),
    {
        let mut out: Vec<i32> = Vec::new();
        let mut k: usize = 0;
        while k < self.actions.len()
            invariant
                k <= self@.len(),
                out@.len() == k,
                forall|i: int| 0 <= i < k ==> out@[i] == tc_action_value(#[trigger] self@[i]),
            decreases self@.len() - k,
        {
            out.push(tc_action_to_value(self.actions[k]));
            k += 1;
        }
        out
    }
}

impl Default for TcProceedOn {
    /// The default set: continue on `pipe` and on `dispatcher_return`.
    fn default() -> (r: Self)
        ensures
            r@ =~= seq![TcAction::Pipe, TcAction::DispatcherReturn],
            r.wf(),
    {
        let mut actions: Vec<TcAction> = Vec::new();
        actions.push(TcAction::Pipe);
        actions.push(TcAction::DispatcherReturn);
        TcProceedOn { actions }
    }
}

/// Exec counterpart of [`xdp_action_of_value`].
pub fn xdp_action_from_value(v: i32) -> (r: Option<XdpAction>)
    ensures
        r == xdp_action_of_value(v),
{
    match v {
        0 => Some(XdpAction::Aborted),
        1 => Some(XdpAction::Drop),
        2 => Some(XdpAction::Pass),
        3 => Some(XdpAction::Tx),
        4 => Some(XdpAction::Redirect),
        31 => Some(XdpAction::DispatcherReturn),
        _ => None,
    }
}

/// Exec counterpart of [`xdp_action_value`].
pub fn xdp_action_to_value(a: XdpAction) -> (r: i32)
    ensures
        r == xdp_action_value(a),
{
    match a {
        XdpAction::Aborted => 0,
        XdpAction::Drop => 1,
        XdpAction::Pass => 2,
        XdpAction::Tx => 3,
        XdpAction::Redirect => 4,
        XdpAction::DispatcherReturn => 31,
    }
}

/// Exec counterpart of [`tc_action_of_value`].
pub fn tc_action_from_value(v: i32) -> (r: Option<TcAction>)
    ensures
        r == tc_action_of_value(v),
{
    match v {
        -1 => Some(TcAction::Unspec),
        0 => Some(TcAction::Okay),
        1 => Some(TcAction::Reclassify),
        2 => Some(TcAction::Shot),
        3 => Some(TcAction::Pipe),
        4 => Some(TcAction::Stolen),
        5 => Some(TcAction::Queued),
        6 => Some(TcAction::Repeat),
        7 => Some(TcAction::Redirect),
        8 => Some(TcAction::Trap),
        30 => Some(TcAction::DispatcherReturn),
        _ => None,
    }
}

/// Exec counterpart of [`tc_action_value`].
pub fn tc_action_to_value(a: TcAction) -> (r: i32)
    ensures
        r == tc_action_value(a),
{
    match a {
        TcAction::Unspec => -1i32,
        TcAction::Okay => 0,
        TcAction::Reclassify => 1,
        TcAction::Shot => 2,
        TcAction::Pipe => 3,
        TcAction::Stolen => 4,
        TcAction::Queued => 5,
        TcAction::Repeat => 6,
        TcAction::Redirect => 7,
        TcAction::Trap => 8,
        TcAction::DispatcherReturn => 30,
    }
}

/// Re-encoding a parsed set and parsing it again returns the same set.
pub proof fn lemma_proceed_on_round_trip(vals: Seq<i32>, actions: Seq<XdpAction>)
    requires
        xdp_list_ok(vals),
        actions.len() == vals.len(),
        forall|i: int|
            0 <= i < vals.len() ==> xdp_action_of_value(vals[i]) == Some(#[trigger] actions[i]),
    ensures
        forall|i: int| 0 <= i < actions.len() ==> xdp_action_value(#[trigger] actions[i]) == vals[i],
{
}

} // verus!
