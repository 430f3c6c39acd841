//! The bridge to the `vte` escape-sequence state machine.
//!
//! `vte::Parser` splits a byte stream into control functions and reports
//! them through the `vte::Perform` callbacks.  Here those callbacks are
//! recorded as plain `VteAction` values, so that the response parser can
//! classify them in verified code.
use vstd::prelude::*;
use vstd::slice::slice_to_vec;

verus! {

#[verifier::external_type_specification]
#[verifier::external_body]
pub struct ExVteParams(vte::Params);

#[verifier::external_type_specification]
#[verifier::external_body]
pub struct ExVteParser<const OSC_RAW_BUF_SIZE: usize>(vte::Parser<OSC_RAW_BUF_SIZE>);

/// One callback of the VT state machine, with its arguments as plain values.
/// (Printing, C0/C1 execution and plain escape dispatches are not recorded:
/// nothing in a terminal's reply to a query is carried by them.)
pub enum VteAction {
    /// `CSI params intermediates action`
    Csi { params: Vec<Vec<u16>>, intermediates: Vec<u8>, ignore: bool, action: char },
    /// Start of a device control string.
    Hook { params: Vec<Vec<u16>>, intermediates: Vec<u8>, ignore: bool, action: char },
    /// One byte of a device control string's data.
    Put { byte: u8 },
    /// End of a device control string.
    Unhook,
    /// An operating system command, split at `;`.
    Osc { args: Vec<Vec<u8>>, bell_terminated: bool },
}

/// Mathematical model of a `VteAction`.
pub enum VteActionView {
    Csi { params: Seq<Seq<u16>>, intermediates: Seq<u8>, ignore: bool, action: char },
    Hook { params: Seq<Seq<u16>>, intermediates: Seq<u8>, ignore: bool, action: char },
    Put { byte: u8 },
    Unhook,
    Osc { args: Seq<Seq<u8>>, bell_terminated: bool },
}

pub open spec fn view_u16s(v: Vec<Vec<u16>>) -> Seq<Seq<u16>> {
    v@.map_values(|p: Vec<u16>| p@)
}

pub open spec fn view_u8s(v: Vec<Vec<u8>>) -> Seq<Seq<u8>> {
    v@.map_values(|p: Vec<u8>| p@)
}

impl View for VteAction {
    type V = VteActionView;

    open spec fn view(&self) -> VteActionView {
        match self {
            VteAction::Csi { params, intermediates, ignore, action } => VteActionView::Csi {
                params: view_u16s(*params),
                intermediates: intermediates@,
                ignore: *ignore,
                action: *action,
            },
            VteAction::Hook { params, intermediates, ignore, action } => VteActionView::Hook {
                params: view_u16s(*params),
                intermediates: intermediates@,
                ignore: *ignore,
                action: *action,
            },
            VteAction::Put { byte } => VteActionView::Put { byte: *byte },
            VteAction::Unhook => VteActionView::Unhook,
            VteAction::Osc { args, bell_terminated } => VteActionView::Osc {
                args: view_u8s(*args),
                bell_terminated: *bell_terminated,
            },
        }
    }
}

/// The bytes that a `vte::Parser` has been advanced over since it was made.
pub uninterp spec fn vte_consumed(p: vte::Parser) -> Seq<u8>;

/// The callbacks that `vte::Parser::advance` makes for `input`, on a parser
/// that has consumed `consumed` before.
pub uninterp spec fn vte_actions(consumed: Seq<u8>, input: Seq<u8>) -> Seq<VteActionView>;

/// Calls `vte::Parser::new`.  Trusted: a fresh parser has consumed nothing.
#[verifier::external_body]
pub(crate) fn vte_new() -> (p: vte::Parser)
    ensures
        vte_consumed(p) == Seq::<u8>::empty(),
{
    vte::Parser::new()
}

/// Calls `vte::Parser::advance` and returns the callbacks it made, in order.
/// Trusted: the parser has consumed `bytes` afterwards, and the callbacks
/// are those that `advance` makes for `bytes` after what it consumed before
/// (`vte::Parser` is a deterministic state machine that starts from its
/// `Default` state).  Which callbacks those are is left to the name.
#[verifier::external_body]
pub(crate) fn vte_advance(p: &mut vte::Parser, bytes: &[u8]) -> (actions: Vec<VteAction>)
    ensures
        vte_consumed(*final(p)) == vte_consumed(*old(p)) + bytes@,
        actions@.map_values(|a: VteAction| a@) == vte_actions(vte_consumed(*old(p)), bytes@),
{
    let mut recorder = Recorder { actions: Vec::new() };
    p.advance(&mut recorder, bytes);
    recorder.actions
}

/// Calls `vte::Params::iter` and copies each parameter's list of
/// sub-parameters.  Nothing is stated: `vte::Params` is opaque here.
#[verifier::external_body]
fn params_to_vecs(params: &vte::Params) -> Vec<Vec<u16>> {
    params.iter().map(|sub| sub.to_vec()).collect()
}

/// The `vte::Perform` implementation that records callbacks.
pub struct Recorder {
    pub actions: Vec<VteAction>,
}

impl vte::Perform for Recorder {
    /// Records a CSI dispatch, with its intermediates, ignore flag and
    /// final character (the parameters are copied from the opaque
    /// `vte::Params`).
    fn csi_dispatch(
        &mut self,
        params: &vte::Params,
        intermediates: &[u8],
        ignore: bool,
        action: char,
    )
        ensures
            final(self).actions@ == old(self).actions@.push(final(self).actions@.last()),
            final(self).actions@.last() matches VteAction::Csi { intermediates: i, ignore: g, action: a, .. }
                && i@ == intermediates@ && g == ignore && a == action,
    {
        let params = params_to_vecs(params);
        let intermediates = slice_to_vec(intermediates);
        self.actions.push(VteAction::Csi { params, intermediates, ignore, action });
    }

    /// Records the start of a device control string, with its
    /// intermediates, ignore flag and final character (the parameters are
    /// copied from the opaque `vte::Params`).
    fn hook(&mut self, params: &vte::Params, intermediates: &[u8], ignore: bool, action: char)
        ensures
            final(self).actions@ == old(self).actions@.push(final(self).actions@.last()),
            final(self).actions@.last() matches VteAction::Hook { intermediates: i, ignore: g, action: a, .. }
                && i@ == intermediates@ && g == ignore && a == action,
    {
        let params = params_to_vecs(params);
        let intermediates = slice_to_vec(intermediates);
        self.actions.push(VteAction::Hook { params, intermediates, ignore, action });
    }

    /// Records one byte of a device control string.
    fn put(&mut self, byte: u8)
        ensures
            final(self).actions@ == old(self).actions@.push(VteAction::Put { byte }),
    {
        self.actions.push(VteAction::Put { byte });
    }

    /// Records the end of a device control string.
    fn unhook(&mut self)
        ensures
            final(self).actions@ == old(self).actions@.push(VteAction::Unhook),
    {
        self.actions.push(VteAction::Unhook);
    }

    /// Records an operating system command with copies of its arguments.
    fn osc_dispatch(&mut self, params: &[&[u8]], bell_terminated: bool)
        ensures
            final(self).actions@ == old(self).actions@.push(final(self).actions@.last()),
            final(self).actions@.last() matches VteAction::Osc { args, bell_terminated: b }
                && view_u8s(args) == params@.map_values(|p: &[u8]| p@) && b == bell_terminated,
    {
        let mut copied: Vec<Vec<u8>> = Vec::new();
        let mut i: usize = 0;
        while i < params.len()
            invariant
                i <= params.len(),
                view_u8s(copied) == params@.take(i as int).map_values(|p: &[u8]| p@),
            decreases params.len() - i,
        {
            let ghost before = view_u8s(copied);
            copied.push(slice_to_vec(params[i]));
            proof {
                assert(params@.take(i + 1) == params@.take(i as int).push(params@[i as int]));
                assert(view_u8s(copied) =~= before.push(params@[i as int]@));
                assert(params@.take(i + 1).map_values(|p: &[u8]| p@) =~= params@.take(
                    i as int,
                ).map_values(|p: &[u8]| p@).push(params@[i as int]@));
            }
            i = i + 1;
        }
        assert(params@.take(params.len() as int) == params@);
        self.actions.push(VteAction::Osc { args: copied, bell_terminated });
    }
}

} // verus!
