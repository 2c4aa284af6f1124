//! Sending zenoh messages: the link a unicast session sends a message on, where a multicast
//! transport hands it, and the transmission counters it keeps.
use vstd::prelude::*;

verus! {

/// The link that a unicast session sends a message on, given whether the message is
/// reliable and whether each link is: the first link as reliable as the message, else the
/// first link; none when the session has no link.
pub open spec fn chosen_link(msg_reliable: bool, links: Seq<bool>) -> Option<nat> {
    if exists|i: int| 0 <= i < links.len() && links[i] == msg_reliable {
        let i = choose|i: int|
            0 <= i < links.len() && links[i] == msg_reliable && forall|j: int|
                0 <= j < i ==> links[j] != msg_reliable;
        Some(i as nat)
    } else if links.len() > 0 {
        Some(0)
    } else {
        None
    }
}

/// Chooses the link that a unicast session sends a message on (`None`: the message is
/// dropped).
pub fn select_link(msg_reliable: bool, links: &Vec<bool>) -> (r: Option<usize>)
    ensures
        match r {
            Some(i) => chosen_link(msg_reliable, links@) == Some(i as nat),
            None => chosen_link(msg_reliable, links@) is None,
        },
{
    let mut i: usize = 0;
    while i < links.len()
        invariant
            i <= links.len(),
            forall|j: int| 0 <= j < i ==> links@[j] != msg_reliable,
        decreases links.len() - i,
    {
        if links[i] == msg_reliable {
            proof {
                let k = choose|k: int|
                    0 <= k < links@.len() && links@[k] == msg_reliable && forall|j: int|
                        0 <= j < k ==> links@[j] != msg_reliable;
                assert(k == i as int) by {
                    if k < i {
                        assert(links@[k] != msg_reliable);
                    }
                    if k > i {
                        assert(links@[i as int] != msg_reliable);
                    }
                }
            }
            return Some(i);
        }
        i = i + 1;
    }
    if links.len() > 0 {
        Some(0)
    } else {
        None
    }
}

/// A message sent on a link that is as reliable as it whenever such a link exists; a
/// message is dropped only when the session has no link.
pub proof fn lemma_chosen_link_fits(msg_reliable: bool, links: Seq<bool>)
    ensures
        chosen_link(msg_reliable, links) is None <==> links.len() == 0,
        chosen_link(msg_reliable, links) matches Some(i) ==> i < links.len(),
        (exists|j: int| 0 <= j < links.len() && links[j] == msg_reliable) ==> (
        chosen_link(msg_reliable, links) matches Some(i) && links[i as int] == msg_reliable),
{
    if exists|j: int| 0 <= j < links.len() && links[j] == msg_reliable {
        let j = choose|j: int| 0 <= j < links.len() && links[j] == msg_reliable;
        lemma_first_match_exists(msg_reliable, links, j);
    }
}

proof fn lemma_first_match_exists(msg_reliable: bool, links: Seq<bool>, j: int)
    requires
        0 <= j < links.len(),
        links[j] == msg_reliable,
    ensures
        exists|i: int|
            0 <= i < links.len() && links[i] == msg_reliable && forall|k: int|
                0 <= k < i ==> links[k] != msg_reliable,
    decreases j,
{
    if exists|k: int| 0 <= k < j && links[k] == msg_reliable {
        let k = choose|k: int| 0 <= k < j && links[k] == msg_reliable;
        lemma_first_match_exists(msg_reliable, links, k);
    } else {
        assert(forall|k: int| 0 <= k < j ==> links[k] != msg_reliable);
    }
}

/// Where a multicast transport hands a message.
#[derive(PartialEq, Eq, Structural, Debug, Clone, Copy)]
pub enum MulticastRoute {
    /// To the pipeline of its link.
    Pipeline,
    /// Nowhere: its link has no pipeline.
    NoPipeline,
    /// Nowhere: the transport has no link; the drop is logged.
    NoLink,
}

/// Where a multicast transport hands a message, given whether it has a link (`None`: none)
/// and whether that link has a pipeline.
pub open spec fn route_of(link_has_pipeline: Option<bool>) -> MulticastRoute {
    match link_has_pipeline {
        Some(true) => MulticastRoute::Pipeline,
        Some(false) => MulticastRoute::NoPipeline,
        None => MulticastRoute::NoLink,
    }
}

/// Where a multicast transport hands a message, given whether it has a link (`None`: none)
/// and whether that link has a pipeline.
pub fn multicast_route(link_has_pipeline: Option<bool>) -> (r: MulticastRoute)
    ensures
        r == route_of(link_has_pipeline),
{
    match link_has_pipeline {
        Some(true) => MulticastRoute::Pipeline,
        Some(false) => MulticastRoute::NoPipeline,
        None => MulticastRoute::NoLink,
    }
}

/// The body of a zenoh message, as the transmission counters tell them apart.
pub enum TxBody {
    /// A data message, a reply or not, with the length of its payload.
    Data { reply: bool, payload_len: usize },
    /// A unit message, a reply or not.
    Unit { reply: bool },
    Pull,
    Query,
    Declare,
    LinkStateList,
}

/// The transmission counters of a multicast transport. Each counter wraps around on
/// overflow.
pub struct TxStats {
    pub z_msgs: usize,
    pub z_data_reply_msgs: usize,
    pub z_data_reply_payload_bytes: usize,
    pub z_data_msgs: usize,
    pub z_data_payload_bytes: usize,
    pub z_unit_reply_msgs: usize,
    pub z_unit_msgs: usize,
    pub z_pull_msgs: usize,
    pub z_query_msgs: usize,
    pub z_declare_msgs: usize,
    pub z_linkstate_msgs: usize,
}

/// The counters after one more message with body `body` was sent: the message count, the
/// count of the body's kind, and for data its payload bytes, each grow (wrapping around).
pub open spec fn counted(s: TxStats, body: TxBody) -> TxStats {
    let s = TxStats { z_msgs: s.z_msgs.wrapping_add(1), ..s };
    match body {
        TxBody::Data { reply: true, payload_len } => TxStats {
            z_data_reply_msgs: s.z_data_reply_msgs.wrapping_add(1),
            z_data_reply_payload_bytes: s.z_data_reply_payload_bytes.wrapping_add(payload_len),
            ..s
        },
        TxBody::Data { reply: false, payload_len } => TxStats {
            z_data_msgs: s.z_data_msgs.wrapping_add(1),
            z_data_payload_bytes: s.z_data_payload_bytes.wrapping_add(payload_len),
            ..s
        },
        TxBody::Unit { reply: true } => TxStats { z_unit_reply_msgs: s.z_unit_reply_msgs.wrapping_add(1), ..s },
        TxBody::Unit { reply: false } => TxStats { z_unit_msgs: s.z_unit_msgs.wrapping_add(1), ..s },
        TxBody::Pull => TxStats { z_pull_msgs: s.z_pull_msgs.wrapping_add(1), ..s },
        TxBody::Query => TxStats { z_query_msgs: s.z_query_msgs.wrapping_add(1), ..s },
        TxBody::Declare => TxStats { z_declare_msgs: s.z_declare_msgs.wrapping_add(1), ..s },
        TxBody::LinkStateList => TxStats { z_linkstate_msgs: s.z_linkstate_msgs.wrapping_add(1), ..s },
    }
}

/// Whether the message count is the sum of the counts of the message kinds.
pub open spec fn totals_agree(s: TxStats) -> bool {
    s.z_msgs == s.z_data_reply_msgs + s.z_data_msgs + s.z_unit_reply_msgs + s.z_unit_msgs
        + s.z_pull_msgs + s.z_query_msgs + s.z_declare_msgs + s.z_linkstate_msgs
}

/// Counting a message keeps the message count equal to the sum of the counts of the kinds,
/// as long as the message count does not wrap around.
pub proof fn lemma_counted_keeps_totals(s: TxStats, body: TxBody)
    requires
        totals_agree(s),
        s.z_msgs < usize::MAX,
    ensures
        totals_agree(counted(s, body)),
        counted(s, body).z_msgs == s.z_msgs + 1,
{
}

impl TxStats {
    /// Counters that have counted nothing.
    pub fn new() -> (s: TxStats)
        ensures
            s == (TxStats {
                z_msgs: 0,
                z_data_reply_msgs: 0,
                z_data_reply_payload_bytes: 0,
                z_data_msgs: 0,
                z_data_payload_bytes: 0,
                z_unit_reply_msgs: 0,
                z_unit_msgs: 0,
                z_pull_msgs: 0,
                z_query_msgs: 0,
                z_declare_msgs: 0,
                z_linkstate_msgs: 0,
            }),
    {
        TxStats {
            z_msgs: 0,
            z_data_reply_msgs: 0,
            z_data_reply_payload_bytes: 0,
            z_data_msgs: 0,
            z_data_payload_bytes: 0,
            z_unit_reply_msgs: 0,
            z_unit_msgs: 0,
            z_pull_msgs: 0,
            z_query_msgs: 0,
            z_declare_msgs: 0,
            z_linkstate_msgs: 0,
        }
    }

    /// Sends a message on a multicast transport: counts it, whether it is then dropped or
    /// not, and tells where it goes, given whether the transport has a link (`None`: none)
    /// and whether that link has a pipeline.
    pub fn schedule_first_fit(&mut self, body: &TxBody, link_has_pipeline: Option<bool>) -> (r: MulticastRoute)
        ensures
            *final(self) == counted(*old(self), *body),
            r == route_of(link_has_pipeline),
    {
        self.record(body);
        multicast_route(link_has_pipeline)
    }

    /// Counts one more message with body `body`.
    pub fn record(&mut self, body: &TxBody)
        ensures
            *final(self) == counted(*old(self), *body),
    {
        self.z_msgs = self.z_msgs.wrapping_add(1);
        match body {
            TxBody::Data { reply, payload_len } => {
                if *reply {
                    self.z_data_reply_msgs = self.z_data_reply_msgs.wrapping_add(1);
                    self.z_data_reply_payload_bytes = self.z_data_reply_payload_bytes.wrapping_add(*payload_len);
                } else {
                    self.z_data_msgs = self.z_data_msgs.wrapping_add(1);
                    self.z_data_payload_bytes = self.z_data_payload_bytes.wrapping_add(*payload_len);
                }
            },
            TxBody::Unit { reply } => {
                if *reply {
                    self.z_unit_reply_msgs = self.z_unit_reply_msgs.wrapping_add(1);
                } else {
                    self.z_unit_msgs = self.z_unit_msgs.wrapping_add(1);
                }
            },
            TxBody::Pull => {
                self.z_pull_msgs = self.z_pull_msgs.wrapping_add(1);
            },
            TxBody::Query => {
                self.z_query_msgs = self.z_query_msgs.wrapping_add(1);
            },
            TxBody::Declare => {
                self.z_declare_msgs = self.z_declare_msgs.wrapping_add(1);
            },
            TxBody::LinkStateList => {
                self.z_linkstate_msgs = self.z_linkstate_msgs.wrapping_add(1);
            },
        }
    }
}

} // verus!
