//! A profile that expects certain sends, in order, and answers them as it was
//! told to.

use std::collections::VecDeque;
use vstd::prelude::*;
use crate::interface_manager::edge_port::{CENTRAL_NODE_ID, EDGE_NODE_ID};
use crate::interface_manager::{
    InterfaceSendError, InterfaceState, Payload, Profile, ProfileStep, SetStateError,
};
use crate::net_stack::NetStack;
use crate::{AnyAllAppendix, Header, ProtocolError};

verus! {

/// A message that is expected, and how the send is to be answered.
pub struct ExpectedSend {
    pub hdr: Header,
    pub data: Vec<u8>,
    pub retval: Result<(), InterfaceSendError>,
}

/// An error that is expected, and how the send is to be answered.
pub struct ExpectedSendErr {
    pub hdr: Header,
    pub err: ProtocolError,
    pub retval: Result<(), InterfaceSendError>,
}

/// A raw message that is expected, and how the send is to be answered.
pub struct ExpectedSendRaw {
    pub hdr: Header,
    pub body: Vec<u8>,
    pub retval: Result<(), InterfaceSendError>,
}

/// A profile that expects certain sends.
///
/// A send that was not expected is answered with
/// [`InterfaceSendError::InternalError`], and the profile remembers that it was
/// surprised.
pub struct MockProfile {
    pub expected_sends: VecDeque<ExpectedSend>,
    pub expected_send_errs: VecDeque<ExpectedSendErr>,
    pub expected_send_raws: VecDeque<ExpectedSendRaw>,
    pub surprised: bool,
}

/// A net stack over a profile that expects nothing yet.
pub fn test_stack() -> (r: NetStack<MockProfile>)
    ensures
        r.profile.expects_nothing(),
        r.sockets@.len() == 0,
{
    NetStack::new_with_profile(MockProfile::default())
}

impl Default for MockProfile {
    fn default() -> (r: MockProfile)
        ensures
            r.expects_nothing(),
    {
        MockProfile {
            expected_sends: VecDeque::new(),
            expected_send_errs: VecDeque::new(),
            expected_send_raws: VecDeque::new(),
            surprised: false,
        }
    }
}

impl MockProfile {
    /// Everything that was expected came, and nothing else.
    pub open spec fn expects_nothing(self) -> bool {
        &&& self.expected_sends@.len() == 0
        &&& self.expected_send_errs@.len() == 0
        &&& self.expected_send_raws@.len() == 0
        &&& !self.surprised
    }

    /// Expect one more message.
    pub fn add_exp_send(&mut self, exp: ExpectedSend)
        ensures
            final(self).expected_sends@ == old(self).expected_sends@.push(exp),
            final(self).expected_send_errs == old(self).expected_send_errs,
            final(self).expected_send_raws == old(self).expected_send_raws,
            final(self).surprised == old(self).surprised,
    {
        self.expected_sends.push_back(exp);
    }

    /// Expect one more error.
    pub fn add_exp_send_err(&mut self, exp: ExpectedSendErr)
        ensures
            final(self).expected_sends == old(self).expected_sends,
            final(self).expected_send_errs@ == old(self).expected_send_errs@.push(exp),
            final(self).expected_send_raws == old(self).expected_send_raws,
            final(self).surprised == old(self).surprised,
    {
        self.expected_send_errs.push_back(exp);
    }

    /// Expect one more raw message.
    pub fn add_exp_send_raw(&mut self, exp: ExpectedSendRaw)
        ensures
            final(self).expected_sends == old(self).expected_sends,
            final(self).expected_send_errs == old(self).expected_send_errs,
            final(self).expected_send_raws@ == old(self).expected_send_raws@.push(exp),
            final(self).surprised == old(self).surprised,
    {
        self.expected_send_raws.push_back(exp);
    }

    /// Whether everything that was expected came, and nothing else.
    pub fn assert_all_empty(&self) -> (r: bool)
        ensures
            r == self.expects_nothing(),
    {
        self.expected_sends.len() == 0 && self.expected_send_errs.len() == 0
            && self.expected_send_raws.len() == 0 && !self.surprised
    }

    /// The first send that is still expected for a payload of this kind: whether
    /// it is this one, and the answer to it.
    pub open spec fn next(self, hdr: Header, what: Payload) -> Option<
        (bool, Result<(), InterfaceSendError>),
    > {
        match what {
            Payload::Message(data) => if self.expected_sends@.len() == 0 {
                None
            } else {
                let exp = self.expected_sends@[0];
                Some((exp.hdr == hdr && exp.data@ == data, exp.retval))
            },
            Payload::Error(err) => if self.expected_send_errs@.len() == 0 {
                None
            } else {
                let exp = self.expected_send_errs@[0];
                Some((exp.hdr == hdr && exp.err == err, exp.retval))
            },
            Payload::Raw(body) => if self.expected_send_raws@.len() == 0 {
                None
            } else {
                let exp = self.expected_send_raws@[0];
                Some((exp.hdr == hdr && exp.body@ == body, exp.retval))
            },
        }
    }

    /// Whether `after` is what `before` becomes once a send was answered with `r`:
    /// the first expectation is used up, whether it was met or not.
    pub open spec fn answered(
        before: Self,
        after: Self,
        hdr: Header,
        what: Payload,
        r: Result<(), InterfaceSendError>,
    ) -> bool {
        &&& match before.next(hdr, what) {
            Some((true, retval)) => r == retval && after.surprised == before.surprised,
            _ => r == Err::<(), _>(InterfaceSendError::InternalError) && after.surprised,
        }
        &&& after.expected_sends@ == (if what is Message {
            rest(before.expected_sends@)
        } else {
            before.expected_sends@
        })
        &&& after.expected_send_errs@ == (if what is Error {
            rest(before.expected_send_errs@)
        } else {
            before.expected_send_errs@
        })
        &&& after.expected_send_raws@ == (if what is Raw {
            rest(before.expected_send_raws@)
        } else {
            before.expected_send_raws@
        })
    }
}

/// All but the first.
pub open spec fn rest<T>(s: Seq<T>) -> Seq<T> {
    if s.len() == 0 {
        s
    } else {
        s.skip(1)
    }
}

/// Whether two appendices are the same.
fn same_appendix(a: &Option<AnyAllAppendix>, b: &Option<AnyAllAppendix>) -> (r: bool)
    ensures
        r == (*a == *b),
{
    match (a, b) {
        (None, None) => true,
        (Some(x), Some(y)) => {
            let same_name = match (&x.nash, &y.nash) {
                (None, None) => true,
                (Some(n), Some(m)) => *n == *m,
                _ => false,
            };
            let same_key = x.key.same(&y.key);
            assert(same_key ==> x.key.0 =~= y.key.0);
            same_name && same_key
        },
        _ => false,
    }
}

/// Whether two headers are the same.
fn same_header(a: &Header, b: &Header) -> (r: bool)
    ensures
        r == (*a == *b),
{
    a.src == b.src && a.dst == b.dst && same_appendix(&a.any_all, &b.any_all) && a.kind == b.kind
        && a.class == b.class && a.ttl == b.ttl
}

/// Whether two byte strings are the same.
fn same_bytes(a: &[u8], b: &[u8]) -> (r: bool)
    ensures
        r == (a@ == b@),
{
    if a.len() != b.len() {
        return false;
    }
    let mut i: usize = 0;
    while i < a.len()
        invariant
            i <= a@.len(),
            a@.len() == b@.len(),
            forall|j: int| 0 <= j < i ==> a@[j] == b@[j],
        decreases a@.len() - i,
    {
        if a[i] != b[i] {
            return false;
        }
        i = i + 1;
    }
    assert(a@ =~= b@);
    true
}

impl Profile for MockProfile {
    type InterfaceIdent = u64;

    open spec fn wf(&self) -> bool {
        true
    }

    /// Sends are answered as expected, wherever they came from. There are no
    /// interfaces.
    open spec fn step(before: Self, after: Self, step: ProfileStep<u64>) -> bool {
        match step {
            ProfileStep::Sent { hdr, what, source, r } => Self::answered(
                before,
                after,
                hdr,
                what,
                r,
            ),
            ProfileStep::StateRead { ident, r } => after == before && r is None,
            ProfileStep::StateSet { ident, state, r } => after == before && r == Err::<(), _>(
                SetStateError::InterfaceNotFound,
            ),
            ProfileStep::NodeClaimed { net_id, node_id, may_send } => after == before && may_send
                == (node_id == CENTRAL_NODE_ID || node_id == EDGE_NODE_ID),
            ProfileStep::TransitNet { net_id, routed } => after == before && !routed,
        }
    }

    fn send(&mut self, hdr: &Header, data: &[u8]) -> (r: Result<(), InterfaceSendError>) {
        match self.expected_sends.pop_front() {
            Some(now) => {
                if same_header(&now.hdr, hdr) && same_bytes(now.data.as_slice(), data) {
                    return now.retval;
                }
            },
            None => {},
        }
        self.surprised = true;
        Err(InterfaceSendError::InternalError)
    }

    fn send_err(&mut self, hdr: &Header, err: ProtocolError, source: Option<u64>) -> (r: Result<
        (),
        InterfaceSendError,
    >) {
        match self.expected_send_errs.pop_front() {
            Some(now) => {
                if same_header(&now.hdr, hdr) && now.err == err {
                    return now.retval;
                }
            },
            None => {},
        }
        self.surprised = true;
        Err(InterfaceSendError::InternalError)
    }

    fn send_raw(&mut self, hdr: &Header, data: &[u8], source: u64) -> (r: Result<
        (),
        InterfaceSendError,
    >) {
        match self.expected_send_raws.pop_front() {
            Some(now) => {
                if same_header(&now.hdr, hdr) && same_bytes(now.body.as_slice(), data) {
                    return now.retval;
                }
            },
            None => {},
        }
        self.surprised = true;
        Err(InterfaceSendError::InternalError)
    }

    fn interface_state(&mut self, ident: u64) -> (r: Option<InterfaceState>) {
        None
    }

    fn set_interface_state(&mut self, ident: u64, state: InterfaceState) -> (r: Result<
        (),
        SetStateError,
    >) {
        Err(SetStateError::InterfaceNotFound)
    }

    fn is_node_claimed(&mut self, net_id: u16, node_id: u8) -> (r: bool) {
        crate::interface_manager::point_to_point_role(node_id)
    }

    fn is_transit_net(&mut self, net_id: u16) -> (r: bool) {
        false
    }
}

/// A send that is the next one expected of its sort is answered as was told, and counts
/// as met; every other send is refused and noted. Either way only the first
/// expectation of that sort is used up, if there was one.
pub proof fn expected_sends_are_answered(
    before: MockProfile,
    after: MockProfile,
    hdr: Header,
    what: Payload,
    r: Result<(), InterfaceSendError>,
)
    requires
        MockProfile::answered(before, after, hdr, what, r),
    ensures
        match what {
            Payload::Message(data) => {
                let exp = before.expected_sends@[0];
                &&& after.expected_send_errs@ == before.expected_send_errs@
                &&& after.expected_send_raws@ == before.expected_send_raws@
                &&& if before.expected_sends@.len() > 0 && exp.hdr == hdr && exp.data@ == data {
                    r == exp.retval && after.surprised == before.surprised
                } else {
                    r == Err::<(), _>(InterfaceSendError::InternalError) && after.surprised
                }
                &&& before.expected_sends@.len() > 0 ==> seq![exp] + after.expected_sends@
                    == before.expected_sends@
                &&& before.expected_sends@.len() == 0 ==> after.expected_sends@.len() == 0
            },
            Payload::Error(err) => {
                let exp = before.expected_send_errs@[0];
                &&& after.expected_sends@ == before.expected_sends@
                &&& after.expected_send_raws@ == before.expected_send_raws@
                &&& if before.expected_send_errs@.len() > 0 && exp.hdr == hdr && exp.err == err {
                    r == exp.retval && after.surprised == before.surprised
                } else {
                    r == Err::<(), _>(InterfaceSendError::InternalError) && after.surprised
                }
                &&& before.expected_send_errs@.len() > 0 ==> seq![exp] + after.expected_send_errs@
                    == before.expected_send_errs@
                &&& before.expected_send_errs@.len() == 0 ==> after.expected_send_errs@.len() == 0
            },
            Payload::Raw(body) => {
                let exp = before.expected_send_raws@[0];
                &&& after.expected_sends@ == before.expected_sends@
                &&& after.expected_send_errs@ == before.expected_send_errs@
                &&& if before.expected_send_raws@.len() > 0 && exp.hdr == hdr && exp.body@ == body {
                    r == exp.retval && after.surprised == before.surprised
                } else {
                    r == Err::<(), _>(InterfaceSendError::InternalError) && after.surprised
                }
                &&& before.expected_send_raws@.len() > 0 ==> seq![exp] + after.expected_send_raws@
                    == before.expected_send_raws@
                &&& before.expected_send_raws@.len() == 0 ==> after.expected_send_raws@.len() == 0
            },
        },
{
    match what {
        Payload::Message(data) => {
            if before.expected_sends@.len() > 0 {
                assert(seq![before.expected_sends@[0]] + after.expected_sends@
                    =~= before.expected_sends@);
            }
        },
        Payload::Error(err) => {
            if before.expected_send_errs@.len() > 0 {
                assert(seq![before.expected_send_errs@[0]] + after.expected_send_errs@
                    =~= before.expected_send_errs@);
            }
        },
        Payload::Raw(body) => {
            if before.expected_send_raws@.len() > 0 {
                assert(seq![before.expected_send_raws@[0]] + after.expected_send_raws@
                    =~= before.expected_send_raws@);
            }
        },
    }
}

/// A mock has no interfaces, and knows only the two nodes of a link.
pub proof fn mocks_have_no_interfaces(
    before: MockProfile,
    after: MockProfile,
    step: ProfileStep<u64>,
)
    requires
        MockProfile::step(before, after, step),
    ensures
        match step {
            ProfileStep::Sent { hdr, what, source, r } => MockProfile::answered(
                before,
                after,
                hdr,
                what,
                r,
            ),
            ProfileStep::StateRead { ident, r } => after == before && r is None,
            ProfileStep::StateSet { ident, state, r } => after == before && r == Err::<(), _>(
                SetStateError::InterfaceNotFound,
            ),
            ProfileStep::NodeClaimed { net_id, node_id, may_send } => after == before && (may_send
                <==> node_id == 1 || node_id == 2),
            ProfileStep::TransitNet { net_id, routed } => after == before && !routed,
        },
{
}

} // verus!
