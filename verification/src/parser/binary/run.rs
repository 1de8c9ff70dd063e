//! Whole runs of the engine and what holds of them.

use vstd::prelude::*;
use super::engine::{
    lemma_event_changes_depth, lemma_next_event_wf, lemma_read_attribute_wf,
    lemma_skip_current_node_wf,
};
use super::error::{Error, Warning};
use super::event::attribute::AttributeModel;
use super::event::{
    footer_bytes, lemma_footer_round_trip, lemma_le_u32_of_bytes, marker_warning,
    node_header_len, padding_len, parse_footer, parse_header, parse_node_header,
    read_node_header, u32_le_bytes, zeros, EventModel, FbxHeader, FooterModel, FooterOutcome,
    HEADER_LEN, MAGIC,
};
use super::primitive::le_u32;
use super::state::{ParserModel, ParserState};

verus! {

/// What a caller may ask of the parser.
pub enum Request {
    /// The next event.
    NextEvent,
    /// The next attribute of the node just started.
    ReadAttribute,
    /// To skip the innermost open node.
    SkipCurrentNode,
}

/// What the parser answers to a [`Request`].
pub enum Reply {
    /// Answer to [`Request::NextEvent`].
    Event(Result<EventModel, Error>),
    /// Answer to [`Request::ReadAttribute`].
    Attribute(Result<Option<AttributeModel>, Error>),
    /// Answer to [`Request::SkipCurrentNode`].
    Skipped(Result<(), Error>),
}

impl ParserModel {
    /// The parse after `n` events have been asked for.
    pub open spec fn after_events(self, n: nat) -> ParserModel
        decreases n,
    {
        if n == 0 {
            self
        } else {
            self.after_events((n - 1) as nat).next_event().0
        }
    }

    /// The answer to the request for event number `i`, counting from zero.
    pub open spec fn event_at(self, i: nat) -> Result<EventModel, Error> {
        self.after_events(i).next_event().1
    }

    /// Number of `StartNode` events among the first `n` events.
    pub open spec fn count_starts(self, n: nat) -> nat
        decreases n,
    {
        if n == 0 {
            0
        } else {
            self.count_starts((n - 1) as nat) + if self.event_at((n - 1) as nat) matches Ok(
                EventModel::StartNode(_),
            ) {
                1nat
            } else {
                0nat
            }
        }
    }

    /// Number of `EndNode` events among the first `n` events.
    pub open spec fn count_ends(self, n: nat) -> nat
        decreases n,
    {
        if n == 0 {
            0
        } else {
            self.count_ends((n - 1) as nat) + if self.event_at((n - 1) as nat) matches Ok(
                EventModel::EndNode,
            ) {
                1nat
            } else {
                0nat
            }
        }
    }

    /// Asking for the next event makes the parser read the header of a node,
    /// that is a node header that is not all zero.
    pub open spec fn reads_node_header(self) -> bool {
        &&& self.state is InDocument
        &&& self.leave_attributes() matches Ok(children) && read_node_header(
            children.rest(),
            self.fbx_version->0,
        ) matches Ok(header) && !header.is_node_end()
    }

    /// Number of headers of nodes read on the way to the first `n` events.
    pub open spec fn count_node_headers(self, n: nat) -> nat
        decreases n,
    {
        if n == 0 {
            0
        } else {
            self.count_node_headers((n - 1) as nat) + if self.after_events(
                (n - 1) as nat,
            ).reads_node_header() {
                1nat
            } else {
                0nat
            }
        }
    }

    /// The parse after one request, and the answer to it.
    pub open spec fn answer(self, request: Request) -> (ParserModel, Reply) {
        match request {
            Request::NextEvent => (self.next_event().0, Reply::Event(self.next_event().1)),
            Request::ReadAttribute => (
                self.read_attribute().0,
                Reply::Attribute(self.read_attribute().1),
            ),
            Request::SkipCurrentNode => (
                self.skip_current_node().0,
                Reply::Skipped(self.skip_current_node().1),
            ),
        }
    }

    /// The parse after a sequence of requests.
    pub open spec fn after_requests(self, requests: Seq<Request>) -> ParserModel
        decreases requests.len(),
    {
        if requests.len() == 0 {
            self
        } else {
            self.after_requests(requests.drop_last()).answer(requests.last()).0
        }
    }

    /// The answers to a sequence of requests, in order.
    pub open spec fn replies(self, requests: Seq<Request>) -> Seq<Reply>
        decreases requests.len(),
    {
        if requests.len() == 0 {
            Seq::empty()
        } else {
            self.replies(requests.drop_last()).push(
                self.after_requests(requests.drop_last()).answer(requests.last()).1,
            )
        }
    }
}

/// Every request keeps the engine's invariant.
pub proof fn lemma_requests_keep_wf(m: ParserModel, requests: Seq<Request>)
    requires
        m.wf(),
    ensures
        m.after_requests(requests).wf(),
    decreases requests.len(),
{
    if requests.len() > 0 {
        lemma_requests_keep_wf(m, requests.drop_last());
        let before = m.after_requests(requests.drop_last());
        lemma_next_event_wf(before);
        lemma_read_attribute_wf(before);
        lemma_skip_current_node_wf(before);
    }
}

/// Node events nest: over any run of events, every `StartNode` opens one node
/// and every `EndNode` closes one, so the number of open nodes is the number
/// there was plus the `StartNode` events minus the `EndNode` events, and no
/// `EndNode` comes without a node to close.
pub proof fn lemma_node_events_nest(m: ParserModel, n: nat)
    requires
        m.wf(),
    ensures
        m.after_events(n).wf(),
        m.after_events(n).depth() + m.count_ends(n) == m.depth() + m.count_starts(n),
        m.count_ends(n) <= m.depth() + m.count_starts(n),
    decreases n,
{
    if n > 0 {
        let k = (n - 1) as nat;
        lemma_node_events_nest(m, k);
        lemma_next_event_wf(m.after_events(k));
        lemma_event_changes_depth(m.after_events(k));
    }
}

/// A failure is final: once a request for an event has failed, every later one
/// fails too, with the error that says that the parse has ended.
pub proof fn lemma_failure_is_final(m: ParserModel, k: nat, n: nat)
    requires
        k <= n,
        m.event_at(k) is Err,
    ensures
        m.event_at(n) is Err,
        n > k ==> m.event_at(n) == Err::<EventModel, Error>(Error::Finished),
        !(m.after_events(n + 1).state is InDocument),
        !(m.after_events(n + 1).state is BeforeHeader),
    decreases n - k,
{
    if k < n {
        lemma_failure_is_final(m, k, (n - 1) as nat);
    }
}

/// As long as no request has failed, a `StartNode` event is what reading the
/// header of a node gives: the number of the one is the number of the other.
pub proof fn lemma_start_per_node_header(m: ParserModel, n: nat)
    requires
        m.wf(),
        forall|k: nat| k < n ==> m.event_at(k) is Ok,
    ensures
        m.count_node_headers(n) == m.count_starts(n),
    decreases n,
{
    if n > 0 {
        let k = (n - 1) as nat;
        assert(m.event_at(k) is Ok);
        lemma_start_per_node_header(m, k);
        lemma_node_events_nest(m, k);
    }
}

/// In a parse that runs from the first byte to the `EndFbx` event, the
/// `StartNode` and `EndNode` events come in pairs: there are as many of the
/// one as of the other and as headers of nodes have been read, no node is open
/// at the end, and at no point have more nodes been closed than opened.
pub proof fn lemma_complete_parse_is_balanced(bytes: Seq<u8>, n: nat)
    requires
        ParserModel::initial(bytes).event_at(n) matches Ok(EventModel::EndFbx(_)),
    ensures
        ParserModel::initial(bytes).count_starts(n) == ParserModel::initial(bytes).count_ends(n),
        ParserModel::initial(bytes).count_starts(n) == ParserModel::initial(
            bytes,
        ).count_node_headers(n),
        ParserModel::initial(bytes).after_events(n + 1).depth() == 0,
        ParserModel::initial(bytes).after_events(n + 1).state is AfterFooter,
        forall|k: nat|
            k <= n ==> ParserModel::initial(bytes).count_ends(k) <= ParserModel::initial(
                bytes,
            ).count_starts(k),
{
    let m = ParserModel::initial(bytes);
    lemma_node_events_nest(m, n);
    lemma_event_changes_depth(m.after_events(n));
    assert forall|k: nat| k <= n implies m.count_ends(k) <= m.count_starts(k) by {
        lemma_node_events_nest(m, k);
    }
    assert(m.after_events(n + 1) == m.after_events(n).next_event().0);
    assert forall|k: nat| k < n implies m.event_at(k) is Ok by {
        if m.event_at(k) is Err {
            lemma_failure_is_final(m, k, n);
        }
    }
    lemma_start_per_node_header(m, n);
}

/// While the node that is innermost in `m` stays open, whatever is asked of
/// the parser, the document, the version, the warnings and the nodes around
/// that node stay as they are, unless the parse fails.
proof fn lemma_inside_node(m: ParserModel, requests: Seq<Request>, n: int)
    requires
        m.wf(),
        m.state is InDocument,
        m.depth() > 0,
        0 <= n <= requests.len(),
        forall|k: int|
            0 <= k <= n ==> (#[trigger] m.after_requests(requests.take(k))).depth() >= m.depth(),
    ensures
        m.after_requests(requests.take(n)).wf(),
        m.after_requests(requests.take(n)).state is InDocument || m.after_requests(
            requests.take(n),
        ).state is Failed,
        m.after_requests(requests.take(n)).bytes == m.bytes,
        m.after_requests(requests.take(n)).fbx_version == m.fbx_version,
        m.after_requests(requests.take(n)).warnings == m.warnings,
        m.after_requests(requests.take(n)).open_nodes.take(m.depth() as int) == m.open_nodes,
    decreases n,
{
    if n == 0 {
        assert(m.open_nodes.take(m.depth() as int) =~= m.open_nodes);
    } else {
        lemma_inside_node(m, requests, n - 1);
        assert(requests.take(n).drop_last() =~= requests.take(n - 1));
        let before = m.after_requests(requests.take(n - 1));
        let after = m.after_requests(requests.take(n));
        assert(after == before.answer(requests[n - 1]).0);
        assert(after.depth() >= m.depth());
        lemma_next_event_wf(before);
        lemma_read_attribute_wf(before);
        lemma_skip_current_node_wf(before);
        lemma_event_changes_depth(before);
        assert(after.open_nodes.take(m.depth() as int) =~= before.open_nodes.take(
            m.depth() as int,
        ));
    }
}

/// Leaving a node is skipping it: however the events and the attributes of a
/// node have been read and whichever of its children have been skipped, when
/// the node is left, be it by reading the `EndNode` that closes it or by
/// skipping what is left of it, the parse stands exactly where skipping the
/// node at once would have put it, with the cursor at the end offset of the
/// node.
pub proof fn lemma_leaving_a_node_is_skipping_it(m: ParserModel, requests: Seq<Request>)
    requires
        m.wf(),
        m.state is InDocument,
        m.depth() > 0,
        forall|k: int|
            0 <= k < requests.len() ==> (#[trigger] m.after_requests(requests.take(k))).depth()
                >= m.depth(),
        m.after_requests(requests).depth() < m.depth(),
    ensures
        m.skip_current_node().1 is Ok,
        m.after_requests(requests) == m.skip_current_node().0,
        m.after_requests(requests).position == m.top_end(),
{
    let n = requests.len() as int;
    assert(requests.take(n) =~= requests);
    if n == 0 {
        assert(m.after_requests(requests) == m);
    } else {
        lemma_inside_node(m, requests, n - 1);
        assert(requests.drop_last() =~= requests.take(n - 1));
        let before = m.after_requests(requests.take(n - 1));
        let after = m.after_requests(requests);
        assert(after == before.answer(requests.last()).0);
        lemma_next_event_wf(before);
        lemma_read_attribute_wf(before);
        lemma_skip_current_node_wf(before);
        lemma_event_changes_depth(before);
        assert(before.depth() == m.depth());
        assert(before.open_nodes =~= before.open_nodes.take(m.depth() as int));
        assert(after.open_nodes =~= m.open_nodes.drop_last());
    }
}

/// A document whose header is followed at once by the all-zero node header
/// yields `StartFbx` and then, with no node event in between, whatever reading
/// the footer yields: `EndFbx` with the footer, or the footer's error.
pub proof fn lemma_empty_document(bytes: Seq<u8>)
    requires
        parse_header(bytes) is Ok,
        bytes.len() >= HEADER_LEN + node_header_len(parse_header(bytes)->Ok_0.version),
        parse_node_header(bytes.skip(27), parse_header(bytes)->Ok_0.version).is_node_end(),
    ensures
        ParserModel::initial(bytes).event_at(0) == Ok::<EventModel, Error>(
            EventModel::StartFbx(parse_header(bytes)->Ok_0),
        ),
        ParserModel::initial(bytes).event_at(1) == match parse_footer(
            bytes.skip(27 + node_header_len(parse_header(bytes)->Ok_0.version) as int),
            27 + node_header_len(parse_header(bytes)->Ok_0.version),
            parse_header(bytes)->Ok_0.version,
        ) {
            Ok(outcome) => Ok::<EventModel, Error>(EventModel::EndFbx(outcome.footer)),
            Err(e) => Err(e),
        },
        parse_footer(
            bytes.skip(27 + node_header_len(parse_header(bytes)->Ok_0.version) as int),
            27 + node_header_len(parse_header(bytes)->Ok_0.version),
            parse_header(bytes)->Ok_0.version,
        ) matches Ok(outcome) ==> ParserModel::initial(bytes).after_events(2) == (ParserModel {
            state: ParserState::AfterFooter,
            ..ParserModel::initial(bytes).after_header(parse_header(bytes)->Ok_0).advance(
                node_header_len(parse_header(bytes)->Ok_0.version),
            ).after_footer(outcome)
        }),
{
    let m = ParserModel::initial(bytes);
    assert(m.rest() =~= bytes);
    assert(m.after_events(0) == m);
    let first = m.next_event().0;
    assert(m.after_events(1) == first);
    assert(first.rest() =~= bytes.skip(27));
    let version = parse_header(bytes)->Ok_0.version;
    let after = first.advance(node_header_len(version));
    assert(after.rest() =~= bytes.skip(27 + node_header_len(version) as int));
    assert(m.after_events(2) == first.next_event().0);
}

/// A header that is followed by anything is read as it was written.
proof fn lemma_header_is_read_back(first: u8, second: u8, version: u32, tail: Seq<u8>)
    ensures
        parse_header(header_bytes(first, second, version) + tail) == Ok::<FbxHeader, Error>(
            FbxHeader { version },
        ),
        marker_warning(header_bytes(first, second, version) + tail) == if first == 0x1a && second
            == 0 {
            None
        } else {
            Some(Warning::UnexpectedMarkerBytes(first, second))
        },
        (header_bytes(first, second, version) + tail).skip(27) == tail,
{
    let bytes = header_bytes(first, second, version) + tail;
    assert(u32_le_bytes(version).len() == 4);
    assert(bytes.take(21) =~= MAGIC@);
    assert(bytes.skip(23) =~= u32_le_bytes(version) + tail);
    lemma_le_u32_of_bytes(version, tail);
    assert(bytes.skip(27) =~= tail);
}

/// Zero bytes in the length of a node header are read as the all-zero node
/// header, whatever follows them.
proof fn lemma_zeros_end_the_nodes(version: u32, tail: Seq<u8>)
    ensures
        parse_node_header(zeros(node_header_len(version)) + tail, version).is_node_end(),
        (zeros(node_header_len(version)) + tail).skip(node_header_len(version) as int) == tail,
{
    let bytes = zeros(node_header_len(version)) + tail;
    assert(forall|i: int| 0 <= i < node_header_len(version) ==> bytes[i] == 0);
    assert(bytes.skip(4)[0] == 0 && bytes.skip(4)[1] == 0 && bytes.skip(4)[2] == 0);
    assert(bytes.skip(8)[0] == 0 && bytes.skip(8)[1] == 0 && bytes.skip(8)[2] == 0);
    if version >= 7500 {
        assert(bytes.skip(16)[0] == 0 && bytes.skip(16)[1] == 0 && bytes.skip(16)[2] == 0);
        assert(bytes.skip(4)[3] == 0 && bytes.skip(8).skip(4)[0] == 0);
        assert(bytes.skip(16).skip(4)[0] == 0);
        assert(le_u32(bytes.skip(4)) == 0);
        assert(le_u32(bytes.skip(8).skip(4)) == 0);
        assert(le_u32(bytes.skip(16).skip(4)) == 0);
    }
    assert(bytes.skip(node_header_len(version) as int) =~= tail);
}

/// The bytes of a header with the given marker bytes and version.
pub open spec fn header_bytes(first: u8, second: u8, version: u32) -> Seq<u8> {
    MAGIC@ + seq![first, second] + u32_le_bytes(version)
}

/// The bytes of a document without nodes: a header, the all-zero node header
/// and a footer with `padding` bytes of padding.
pub open spec fn empty_document(
    first: u8,
    second: u8,
    version: u32,
    unknown1: Seq<u8>,
    padding: nat,
    unknown2: Seq<u8>,
) -> Seq<u8> {
    header_bytes(first, second, version) + (zeros(node_header_len(version)) + footer_bytes(
        unknown1,
        padding,
        version,
        unknown2,
    ))
}

/// What is left of three sequences put together when the first two are
/// skipped is the third.
proof fn lemma_skip_two_of_three(head: Seq<u8>, middle: Seq<u8>, tail: Seq<u8>)
    ensures
        (head + (middle + tail)).skip((head.len() + middle.len()) as int) == tail + Seq::<
            u8,
        >::empty(),
        (head + (middle + tail)).len() == head.len() + middle.len() + tail.len(),
{
    assert((head + (middle + tail)).skip((head.len() + middle.len()) as int) =~= tail + Seq::<
        u8,
    >::empty());
}

/// What the parts of a document without nodes are read as, each by itself:
/// the header gives the version and the warning for its marker bytes, the zero
/// bytes behind it are the all-zero node header, and what follows is the
/// footer as it was written.
proof fn lemma_parts_of_empty_document(
    first: u8,
    second: u8,
    version: u32,
    unknown1: Seq<u8>,
    padding: nat,
    unknown2: Seq<u8>,
)
    requires
        unknown1.len() == 16,
        unknown2.len() == 16,
        forall|i: int| 0 <= i < 16 ==> unknown2[i] != 0,
        padding == padding_len(27 + node_header_len(version) + 16) || padding == 0,
    ensures
        ({
            let bytes = empty_document(first, second, version, unknown1, padding, unknown2);
            let hlen = node_header_len(version);
            let expected = padding_len(27 + hlen + 16);
            &&& bytes.len() == 27 + hlen + 160 + padding
            &&& parse_header(bytes) == Ok::<FbxHeader, Error>(FbxHeader { version })
            &&& marker_warning(bytes) == if first == 0x1a && second == 0 {
                None
            } else {
                Some(Warning::UnexpectedMarkerBytes(first, second))
            }
            &&& parse_node_header(bytes.skip(27), version).is_node_end()
            &&& parse_footer(bytes.skip(27 + hlen as int), 27 + hlen, version) == Ok::<
                FooterOutcome,
                Error,
            >(
                FooterOutcome {
                    footer: FooterModel { unknown1, version, unknown2 },
                    warning: if padding == expected {
                        None
                    } else {
                        Some(Warning::MissingFooterPadding { expected: expected as u8 })
                    },
                    consumed: 160 + padding,
                },
            )
        }),
{
    let head = header_bytes(first, second, version);
    let sentinel = zeros(node_header_len(version));
    let footer = footer_bytes(unknown1, padding, version, unknown2);
    let hlen = node_header_len(version);
    assert(head.len() == 27 && footer.len() == 160 + padding) by {
        assert(u32_le_bytes(version).len() == 4);
    }
    lemma_header_is_read_back(first, second, version, sentinel + footer);
    lemma_zeros_end_the_nodes(version, footer);
    lemma_skip_two_of_three(head, sentinel, footer);
    lemma_footer_round_trip(unknown1, padding, version, unknown2, 27 + hlen, Seq::empty());
}

/// A document without nodes is read back as it was written: `StartFbx` with
/// the version, then `EndFbx` with the footer, and the cursor at the end of
/// the document. Marker bytes other than `0x1a 0x00` and a footer without the
/// padding its position calls for each leave one warning and nothing else.
pub proof fn lemma_empty_document_is_read_back(
    first: u8,
    second: u8,
    version: u32,
    unknown1: Seq<u8>,
    padding: nat,
    unknown2: Seq<u8>,
)
    requires
        unknown1.len() == 16,
        unknown2.len() == 16,
        forall|i: int| 0 <= i < 16 ==> unknown2[i] != 0,
        padding == padding_len(27 + node_header_len(version) + 16) || padding == 0,
    ensures
        ({
            let bytes = empty_document(first, second, version, unknown1, padding, unknown2);
            let m = ParserModel::initial(bytes);
            let expected = padding_len(27 + node_header_len(version) + 16);
            &&& m.event_at(0) == Ok::<EventModel, Error>(
                EventModel::StartFbx(FbxHeader { version }),
            )
            &&& m.event_at(1) == Ok::<EventModel, Error>(
                EventModel::EndFbx(FooterModel { unknown1, version, unknown2 }),
            )
            &&& m.after_events(2).state is AfterFooter
            &&& m.after_events(2).position == bytes.len()
            &&& m.after_events(2).warnings == (if first == 0x1a && second == 0 {
                Seq::<Warning>::empty()
            } else {
                seq![Warning::UnexpectedMarkerBytes(first, second)]
            }) + (if padding == expected {
                Seq::<Warning>::empty()
            } else {
                seq![Warning::MissingFooterPadding { expected: expected as u8 }]
            })
        }),
{
    let bytes = empty_document(first, second, version, unknown1, padding, unknown2);
    let hlen = node_header_len(version);
    lemma_parts_of_empty_document(first, second, version, unknown1, padding, unknown2);
    lemma_empty_document(bytes);
    let m = ParserModel::initial(bytes);
    assert(m.rest() =~= bytes);
    assert(m.after_events(2).warnings =~= (if first == 0x1a && second == 0 {
        Seq::<Warning>::empty()
    } else {
        seq![Warning::UnexpectedMarkerBytes(first, second)]
    }) + (if padding == padding_len(27 + hlen + 16) {
        Seq::<Warning>::empty()
    } else {
        seq![Warning::MissingFooterPadding { expected: padding_len(27 + hlen + 16) as u8 }]
    }));
}

/// Parsing is a function of the bytes of the document: two parses of equal
/// bytes answer every sequence of requests alike, events and attributes, and
/// go through the same states.
pub proof fn lemma_reparse_is_identical(first: Seq<u8>, second: Seq<u8>, requests: Seq<Request>)
    requires
        first =~= second,
    ensures
        ParserModel::initial(first).replies(requests) == ParserModel::initial(second).replies(
            requests,
        ),
        ParserModel::initial(first).after_requests(requests) == ParserModel::initial(
            second,
        ).after_requests(requests),
{
}

} // verus!
