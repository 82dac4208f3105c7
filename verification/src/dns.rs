//! The captive portal's DNS: every name resolves to the device itself.
use vstd::prelude::*;

verus! {

/// The longest message that is sent.
pub const MAX_MESSAGE: usize = 512;

/// The longest name that is put down for the log.
pub const MAX_NAME: usize = 128;

pub const QTYPE_A: u16 = 1;

pub const QTYPE_AAAA: u16 = 28;

pub const QTYPE_ANY: u16 = 255;

/// The number in two bytes, the high one first.
pub open spec fn be16(hi: u8, lo: u8) -> int {
    256 * hi + lo
}

/// Where the name that starts at `pos` ends: after the zero that ends it, or after the length
/// of a label that the message cuts short, or at the end of the message.
pub open spec fn name_end(query: Seq<u8>, pos: int) -> int
    decreases query.len() - pos,
{
    if pos < 0 || pos >= query.len() {
        pos
    } else {
        let label = query[pos] as int;
        if label == 0 || pos + 1 + label > query.len() {
            pos + 1
        } else {
            name_end(query, pos + 1 + label)
        }
    }
}

/// `name` and the labels from `pos` on, each set off by a dot.
pub open spec fn dotted_name(query: Seq<u8>, pos: int, name: Seq<u8>) -> Seq<u8>
    decreases query.len() - pos,
{
    if pos < 0 || pos >= query.len() || query[pos] == 0 {
        name
    } else {
        let label = query[pos] as int;
        let name = if name.len() > 0 {
            name.push(46)
        } else {
            name
        };
        if pos + 1 + label > query.len() {
            name
        } else {
            dotted_name(
                query,
                pos + 1 + label,
                name + query.subrange(pos + 1, pos + 1 + label),
            )
        }
    }
}

/// The first `max` items, or all of them.
pub open spec fn at_most(s: Seq<u8>, max: int) -> Seq<u8> {
    if s.len() <= max {
        s
    } else {
        s.take(max)
    }
}

/// Where the question ends: its name, its type and its class.
pub open spec fn question_end(query: Seq<u8>) -> int {
    name_end(query, 12) + 4
}

/// The type that is asked for.
pub open spec fn question_type(query: Seq<u8>) -> int {
    let pos = name_end(query, 12);
    be16(query[pos], query[pos + 1])
}

/// Whether a message is a standard query with a question that it holds in full.
pub open spec fn is_query(query: Seq<u8>) -> bool {
    &&& query.len() >= 12
    // neither the response bit nor an opcode is set
    &&& query[2] < 8
    &&& be16(query[4], query[5]) > 0
    &&& question_end(query) <= query.len()
}

/// Whether a question of this type is answered with an address.
pub open spec fn wants_address(qtype: int) -> bool {
    qtype == QTYPE_A || qtype == QTYPE_ANY
}

/// The header of a reply: the query's identifier, an authoritative reply without an error, one
/// question, and one answer or none.
pub open spec fn reply_header(query: Seq<u8>, answers: u8) -> Seq<u8> {
    seq![query[0], query[1], 0x84u8, 0, 0, 1, 0, answers, 0, 0, 0, 0]
}

/// The answer: for the name at offset 12, type A, class IN, an address to keep for 60 s.
pub open spec fn answer_record(ip: Seq<u8>) -> Seq<u8> {
    seq![0xC0u8, 0x0C, 0, 1, 0, 1, 0, 0, 0, 60, 0, 4] + ip
}

/// The reply to a query, without regard to its length.
pub open spec fn reply_to(query: Seq<u8>, ip: Seq<u8>) -> Seq<u8> {
    let question = query.subrange(12, question_end(query));
    if wants_address(question_type(query)) {
        reply_header(query, 1) + question + answer_record(ip)
    } else {
        reply_header(query, 0) + question
    }
}

/// A question, as far as it matters here.
pub struct Question {
    /// The name asked for, with dots, cut off after 128 bytes.
    pub name: Vec<u8>,
    /// Where the name ends.
    pub pos: usize,
    pub qtype: u16,
}

fn push_capped(name: &mut Vec<u8>, byte: u8, Ghost(full): Ghost<Seq<u8>>)
    requires
        old(name)@ == at_most(full, MAX_NAME as int),
    ensures
        final(name)@ == at_most(full.push(byte), MAX_NAME as int),
{
    if name.len() < MAX_NAME {
        name.push(byte);
    } else {
        assert(full.push(byte).take(MAX_NAME as int) =~= full.take(MAX_NAME as int));
        assert(full.len() == MAX_NAME ==> full.take(MAX_NAME as int) =~= full);
    }
}

/// Reads the question of a message. Nothing comes of a message that is no query.
pub fn parse_question(query: &[u8]) -> (r: Option<Question>)
    ensures
        r is Some <==> is_query(query@),
        r matches Some(q) ==> {
            &&& q.pos == name_end(query@, 12)
            &&& q.qtype == question_type(query@)
            &&& q.name@ == at_most(dotted_name(query@, 12, Seq::empty()), MAX_NAME as int)
        },
{
    let len = query.len();
    if len < 12 {
        return None;
    }
    let flags_hi = query[2];
    assert((flags_hi & 0xF8u8 != 0) == (flags_hi >= 8)) by (bit_vector);
    if flags_hi & 0xF8u8 != 0 || (query[4] == 0 && query[5] == 0) {
        return None;
    }
    let mut pos: usize = 12;
    let mut name: Vec<u8> = Vec::new();
    let ghost mut full: Seq<u8> = Seq::empty();
    let mut ended = false;
    while pos < len && !ended
        invariant
            len == query@.len(),
            12 <= pos <= len,
            name@ == at_most(full, MAX_NAME as int),
            if ended {
                name_end(query@, 12) == pos && dotted_name(query@, 12, Seq::empty()) == full
            } else {
                name_end(query@, 12) == name_end(query@, pos as int) && dotted_name(
                    query@,
                    12,
                    Seq::empty(),
                ) == dotted_name(query@, pos as int, full)
            },
        decreases len - pos,
    {
        let label = query[pos] as usize;
        pos = pos + 1;
        if label == 0 {
            ended = true;
        } else {
            if name.len() > 0 {
                push_capped(&mut name, 46, Ghost(full));
                proof {
                    full = full.push(46);
                }
            }
            if label > len - pos {
                ended = true;
            } else {
                let start = pos;
                let ghost before = full;
                while pos < start + label
                    invariant
                        len == query@.len(),
                        start <= pos <= start + label <= len,
                        full == before + query@.subrange(start as int, pos as int),
                        name@ == at_most(full, MAX_NAME as int),
                    decreases start + label - pos,
                {
                    let byte = query[pos];
                    push_capped(&mut name, byte, Ghost(full));
                    proof {
                        full = full.push(byte);
                        assert(full =~= before + query@.subrange(start as int, pos + 1));
                    }
                    pos = pos + 1;
                }
            }
        }
    }
    if len - pos < 4 {
        return None;
    }
    let qtype = query[pos] as u16 * 256 + query[pos + 1] as u16;
    Some(Question { name, pos, qtype })
}

/// The reply to a message: every question for an address is answered with `ip`, any other
/// without an answer. Nothing is replied to a message that is no query, or where the reply
/// would be too long.
pub fn respond(query: &[u8], ip: [u8; 4]) -> (r: Option<Vec<u8>>)
    ensures
        r is Some <==> is_query(query@) && reply_to(query@, ip@).len() <= MAX_MESSAGE,
        r matches Some(reply) ==> reply@ == reply_to(query@, ip@),
{
    let question = match parse_question(query) {
        Some(q) => q,
        None => return None,
    };
    let len = query.len();
    proof {
        lemma_name_end(query@, 12);
    }
    let end = question.pos + 4;
    let address = question.qtype == QTYPE_A || question.qtype == QTYPE_ANY;
    let needed: usize = if address {
        16
    } else {
        0
    };
    if end > MAX_MESSAGE - needed {
        return None;
    }
    let mut reply: Vec<u8> = Vec::new();
    let answers: u8 = if address {
        1
    } else {
        0
    };
    reply.push(query[0]);
    reply.push(query[1]);
    reply.push(0x84);
    reply.push(0);
    reply.push(0);
    reply.push(1);
    reply.push(0);
    reply.push(answers);
    reply.push(0);
    reply.push(0);
    reply.push(0);
    reply.push(0);
    assert(reply@ =~= reply_header(query@, answers));
    let mut i: usize = 12;
    while i < end
        invariant
            12 <= i <= end <= query@.len(),
            reply@ == reply_header(query@, answers) + query@.subrange(12, i as int),
        decreases end - i,
    {
        reply.push(query[i]);
        i = i + 1;
        assert(reply@ =~= reply_header(query@, answers) + query@.subrange(12, i as int));
    }
    if address {
        reply.push(0xC0);
        reply.push(0x0C);
        reply.push(0);
        reply.push(1);
        reply.push(0);
        reply.push(1);
        reply.push(0);
        reply.push(0);
        reply.push(0);
        reply.push(60);
        reply.push(0);
        reply.push(4);
        reply.push(ip[0]);
        reply.push(ip[1]);
        reply.push(ip[2]);
        reply.push(ip[3]);
    }
    assert(reply@ =~= reply_to(query@, ip@));
    Some(reply)
}

proof fn lemma_name_end(query: Seq<u8>, pos: int)
    requires
        0 <= pos <= query.len(),
    ensures
        pos <= name_end(query, pos) <= query.len(),
    decreases query.len() - pos,
{
    if pos < query.len() {
        let label = query[pos] as int;
        if label != 0 && pos + 1 + label <= query.len() {
            lemma_name_end(query, pos + 1 + label);
        }
    }
}

/// A reply carries the query's identifier and its question unchanged, and reports no error.
pub proof fn law_reply_echoes_query(query: Seq<u8>, ip: Seq<u8>)
    requires
        is_query(query),
    ensures
        ({
            let reply = reply_to(query, ip);
            &&& reply.take(2) == query.take(2)
            &&& reply.subrange(12, question_end(query)) == query.subrange(12, question_end(query))
            // response and authority bits, and the code for no error
            &&& be16(reply[2], reply[3]) == 0x8400
            &&& be16(reply[4], reply[5]) == 1
        }),
{
    lemma_name_end(query, 12);
    let reply = reply_to(query, ip);
    assert(reply.take(2) =~= query.take(2));
    assert(reply.subrange(12, question_end(query)) =~= query.subrange(12, question_end(query)));
}

/// A question for an address is answered with the device's own, and nothing else is answered.
pub proof fn law_names_resolve_to_device(query: Seq<u8>, ip: Seq<u8>)
    requires
        is_query(query),
        ip.len() == 4,
    ensures
        ({
            let reply = reply_to(query, ip);
            let answer = reply.skip(question_end(query));
            if wants_address(question_type(query)) {
                be16(reply[6], reply[7]) == 1 && answer == answer_record(ip) && answer.skip(12)
                    == ip
            } else {
                be16(reply[6], reply[7]) == 0 && answer.len() == 0
            }
        }),
{
    lemma_name_end(query, 12);
    let reply = reply_to(query, ip);
    let answer = reply.skip(question_end(query));
    if wants_address(question_type(query)) {
        assert(answer =~= answer_record(ip));
        assert(answer.skip(12) =~= ip);
    }
}

/// A question for an IPv6 address gets a reply without an error and without an answer.
pub proof fn law_ipv6_gets_no_answer(query: Seq<u8>, ip: Seq<u8>)
    requires
        is_query(query),
        question_type(query) == QTYPE_AAAA,
    ensures
        reply_to(query, ip) == reply_header(query, 0) + query.subrange(12, question_end(query)),
{
}

/// A reply is no query, so that replies are never replied to.
pub proof fn law_reply_is_no_query(query: Seq<u8>, ip: Seq<u8>)
    requires
        is_query(query),
    ensures
        !is_query(reply_to(query, ip)),
{
    lemma_name_end(query, 12);
    assert(reply_to(query, ip)[2] == 0x84);
}

/// Every query of at most 496 bytes gets a reply.
pub proof fn law_short_queries_are_answered(query: Seq<u8>, ip: Seq<u8>)
    requires
        is_query(query),
        query.len() <= 496,
        ip.len() == 4,
    ensures
        reply_to(query, ip).len() <= MAX_MESSAGE,
{
    lemma_name_end(query, 12);
}

// ---- What a message says, and what is replied ------------------------------------------------

/// Labels as a message spells them: one after the other, each behind its length.
pub open spec fn spelled(labels: Seq<Seq<u8>>) -> Seq<u8>
    decreases labels.len(),
{
    if labels.len() == 0 {
        Seq::empty()
    } else {
        spelled(labels.drop_last()) + seq![labels.last().len() as u8] + labels.last()
    }
}

/// Whether labels can be spelled: each has a length that is not zero and fits in a byte.
pub open spec fn are_labels(labels: Seq<Seq<u8>>) -> bool {
    forall|i: int| 0 <= i < labels.len() ==> 0 < (#[trigger] labels[i]).len() <= 255
}

/// Labels with dots between them.
pub open spec fn with_dots(labels: Seq<Seq<u8>>) -> Seq<u8>
    decreases labels.len(),
{
    if labels.len() == 0 {
        Seq::empty()
    } else if labels.len() == 1 {
        labels[0]
    } else {
        with_dots(labels.drop_last()) + seq!['.' as u8] + labels.last()
    }
}

/// What is read of `labels` behind a header, before `tail`, is the labels and then `tail`.
proof fn lemma_labels_are_read(head: Seq<u8>, labels: Seq<Seq<u8>>, tail: Seq<u8>)
    requires
        head.len() == 12,
        are_labels(labels),
    ensures
        ({
            let message = head + spelled(labels) + tail;
            let pos = 12 + spelled(labels).len() as int;
            &&& name_end(message, 12) == name_end(message, pos)
            &&& dotted_name(message, 12, Seq::empty()) == dotted_name(
                message,
                pos,
                with_dots(labels),
            )
            &&& labels.len() > 0 ==> with_dots(labels).len() > 0
        }),
    decreases labels.len(),
{
    let message = head + spelled(labels) + tail;
    if labels.len() > 0 {
        let before = labels.drop_last();
        let last = labels.last();
        assert(last == labels[labels.len() - 1]);
        assert forall|i: int| 0 <= i < before.len() implies 0 < (#[trigger] before[i]).len()
            <= 255 by {
            assert(before[i] == labels[i]);
        }
        let length = seq![last.len() as u8];
        lemma_labels_are_read(head, before, length + last + tail);
        assert(head + spelled(before) + (length + last + tail) =~= message);
        let pos = 12 + spelled(before).len() as int;
        assert(message[pos] == last.len());
        assert(message.subrange(pos + 1, pos + 1 + last.len()) =~= last);
        if before.len() == 0 {
            assert(Seq::<u8>::empty() + last =~= last);
            assert(with_dots(labels) =~= last);
        } else {
            assert(with_dots(before).push(46) + last =~= with_dots(before) + seq!['.' as u8]
                + last);
        }
    }
}

/// Whether a question ends behind its labels: the length that comes next is zero, or more than
/// the `left` bytes that are left.
pub open spec fn ends_name(length: u8, left: int) -> bool {
    length == 0 || length > left
}

proof fn lemma_question(
    head: Seq<u8>,
    labels: Seq<Seq<u8>>,
    length: u8,
    kind: Seq<u8>,
    rest: Seq<u8>,
)
    requires
        head.len() == 12,
        are_labels(labels),
        kind.len() == 4,
        ends_name(length, 4 + rest.len() as int),
    ensures
        ({
            let message = head + spelled(labels) + seq![length] + kind + rest;
            let end = 13 + spelled(labels).len() as int;
            &&& name_end(message, 12) == end
            &&& dotted_name(message, 12, Seq::empty()) == if length > 0 && labels.len() > 0 {
                with_dots(labels) + seq!['.' as u8]
            } else {
                with_dots(labels)
            }
            &&& end + 4 <= message.len()
            &&& message[end] == kind[0]
            &&& message[end + 1] == kind[1]
            &&& message.take(12) == head
            &&& message.subrange(12, end + 4) == spelled(labels) + seq![length] + kind
        }),
{
    let message = head + spelled(labels) + seq![length] + kind + rest;
    let tail = seq![length] + kind + rest;
    let pos = 12 + spelled(labels).len() as int;
    lemma_labels_are_read(head, labels, tail);
    assert(message =~= head + spelled(labels) + tail);
    assert(message[pos] == length);
    assert(message.take(12) =~= head);
    assert(message.subrange(12, pos + 5) =~= spelled(labels) + seq![length] + kind);
    if labels.len() == 0 {
        assert(with_dots(labels) =~= Seq::empty());
    }
    assert(with_dots(labels).push(46) =~= with_dots(labels) + seq!['.' as u8]);
}

/// A question is read as it is spelled: its labels with dots between them, cut off after 128
/// bytes, and its type. Where a label is cut short the name ends before it, with a dot if there
/// were labels before.
pub proof fn law_question_is_read(
    head: Seq<u8>,
    labels: Seq<Seq<u8>>,
    length: u8,
    kind: Seq<u8>,
    rest: Seq<u8>,
    query: &[u8],
    r: Option<Question>,
)
    requires
        head.len() == 12,
        are_labels(labels),
        kind.len() == 4,
        ends_name(length, 4 + rest.len() as int),
        query@ == head + spelled(labels) + seq![length] + kind + rest,
        call_ensures(parse_question, (query,), r),
    ensures
        // no response, opcode 0, and at least one question
        r is Some <==> head[2] < 8 && (head[4] > 0 || head[5] > 0),
        r matches Some(q) ==> {
            let name = if length > 0 && labels.len() > 0 {
                with_dots(labels) + seq!['.' as u8]
            } else {
                with_dots(labels)
            };
            &&& q.name@ == if name.len() > 128 {
                name.take(128)
            } else {
                name
            }
            &&& q.pos == 12 + spelled(labels).len() + 1
            &&& q.qtype == 256 * kind[0] + kind[1]
        },
{
    lemma_question(head, labels, length, kind, rest);
    assert(query@[2] == query@.take(12)[2]);
    assert(query@[4] == query@.take(12)[4]);
    assert(query@[5] == query@.take(12)[5]);
}

/// What is replied to a question: the same identifier, the question unchanged, and for the types
/// A (1) and ANY (255) the device's address, to be kept for 60 s; no answer for any other type.
/// Nothing is replied to what is no query, or where the reply would take more than 512 bytes.
pub proof fn law_question_is_answered(
    head: Seq<u8>,
    labels: Seq<Seq<u8>>,
    length: u8,
    kind: Seq<u8>,
    rest: Seq<u8>,
    query: &[u8],
    ip: [u8; 4],
    r: Option<Vec<u8>>,
)
    requires
        head.len() == 12,
        are_labels(labels),
        kind.len() == 4,
        ends_name(length, 4 + rest.len() as int),
        query@ == head + spelled(labels) + seq![length] + kind + rest,
        call_ensures(respond, (query, ip), r),
    ensures
        ({
            let question = spelled(labels) + seq![length] + kind;
            let reply = if kind[0] == 0 && (kind[1] == 1 || kind[1] == 255) {
                seq![head[0], head[1], 0x84, 0, 0, 1, 0, 1, 0, 0, 0, 0] + question
                    + seq![0xC0, 0x0C, 0, 1, 0, 1, 0, 0, 0, 60, 0, 4, ip@[0], ip@[1], ip@[2], ip@[3]]
            } else {
                seq![head[0], head[1], 0x84, 0, 0, 1, 0, 0, 0, 0, 0, 0] + question
            };
            if head[2] < 8 && (head[4] > 0 || head[5] > 0) && reply.len() <= 512 {
                r matches Some(bytes) && bytes@ == reply
            } else {
                r is None
            }
        }),
{
    lemma_question(head, labels, length, kind, rest);
    assert(query@[0] == query@.take(12)[0]);
    assert(query@[1] == query@.take(12)[1]);
    assert(query@[2] == query@.take(12)[2]);
    assert(query@[4] == query@.take(12)[4]);
    assert(query@[5] == query@.take(12)[5]);
    let question = spelled(labels) + seq![length] + kind;
    assert(question_end(query@) == 12 + question.len());
    if kind[0] == 0 && (kind[1] == 1 || kind[1] == 255) {
        assert(reply_to(query@, ip@) =~= seq![head[0], head[1], 0x84, 0, 0, 1, 0, 1, 0, 0, 0, 0]
            + question
            + seq![0xC0, 0x0C, 0, 1, 0, 1, 0, 0, 0, 60, 0, 4, ip@[0], ip@[1], ip@[2], ip@[3]]);
    } else {
        assert(reply_to(query@, ip@) =~= seq![head[0], head[1], 0x84, 0, 0, 1, 0, 0, 0, 0, 0, 0]
            + question);
    }
}

/// A message that is too short for a header, or breaks off before its question ends, is not
/// replied to.
pub proof fn law_broken_message_gets_no_reply(
    head: Seq<u8>,
    labels: Seq<Seq<u8>>,
    tail: Seq<u8>,
    query: &[u8],
    ip: [u8; 4],
    r: Option<Vec<u8>>,
)
    requires
        query@ == head + spelled(labels) + tail,
        ({
            ||| head.len() < 12 && labels.len() == 0 && tail.len() == 0
            ||| head.len() == 12 && are_labels(labels) && tail.len() < 5 && (tail.len() > 0
                ==> ends_name(tail[0], tail.len() - 1))
        }),
        call_ensures(respond, (query, ip), r),
    ensures
        r is None,
{
    if head.len() == 12 {
        lemma_labels_are_read(head, labels, tail);
        let pos = 12 + spelled(labels).len() as int;
        if tail.len() > 0 {
            assert(query@[pos] == tail[0]);
        }
    }
}

/// In every reply, whatever the message held, the answer goes by the two bytes of the type before
/// the class: there is one answer, the device's address, exactly where they are 0 and 1 or 0 and
/// 255, and with any other type the reply ends with the question.
pub proof fn law_answer_goes_by_type(query: &[u8], ip: [u8; 4], r: Option<Vec<u8>>)
    requires
        call_ensures(respond, (query, ip), r),
    ensures
        r matches Some(bytes) ==> {
            let reply = bytes@;
            let end = if reply[7] == 1 {
                reply.len() - 16
            } else {
                reply.len() as int
            };
            &&& 17 <= end <= query@.len()
            &&& reply.len() <= 512
            &&& reply.take(12) == seq![query@[0], query@[1], 0x84, 0, 0, 1, 0, reply[7], 0, 0, 0, 0]
            &&& reply.subrange(12, end) == query@.subrange(12, end)
            &&& if query@[end - 4] == 0 && (query@[end - 3] == 1 || query@[end - 3] == 255) {
                reply[7] == 1 && reply.skip(end)
                    == seq![0xC0, 0x0C, 0, 1, 0, 1, 0, 0, 0, 60, 0, 4, ip@[0], ip@[1], ip@[2], ip@[3]]
            } else {
                reply[7] == 0
            }
        },
{
    if let Some(bytes) = r {
        let reply = bytes@;
        lemma_name_end(query@, 12);
        let label = query@[12] as int;
        if label > 0 && 13 + label <= query@.len() {
            lemma_name_end(query@, 13 + label);
        }
        let end = question_end(query@);
        assert(reply.take(12) =~= reply_header(query@, reply[7]));
        assert(reply.subrange(12, end) =~= query@.subrange(12, end));
        if wants_address(question_type(query@)) {
            assert(reply.skip(end) =~= answer_record(ip@));
            assert(answer_record(ip@)
                =~= seq![0xC0, 0x0C, 0, 1, 0, 1, 0, 0, 0, 60, 0, 4, ip@[0], ip@[1], ip@[2], ip@[3]]);
        }
    }
}

} // verus!
