//! Decoding of one whole response: lines are fed to a decoder one at a
//! time until a terminal shape arrives — `OK`, `ACK <message>`, or a
//! `binary: <n>` announcement after which exactly `n` raw bytes (and a
//! closing newline plus `OK` line) follow outside the line stream.

use vstd::prelude::*;
use vstd::string::*;
use crate::codec::{
    binary_count, classify_line, is_failure_line, is_success_line, parsed_property, render_prop,
    str_eq, wf_key, wf_value, ResponseLine,
};
use crate::result::{binary_key, has_binary_key, props_view, strings_view, CommandResult};

verus! {

/// What the decoder asks for after one more line.
pub enum DecodeStep {
    /// The line was a property; more lines are needed.
    Continue,
    /// The line announced a binary payload: read exactly `count` raw
    /// bytes, discard the following newline and `OK` line, and finish
    /// with the payload.
    NeedBinary { count: usize },
    /// The line was the success terminator; the response is complete.
    Complete,
    /// The line was the failure terminator, carrying the daemon's
    /// message verbatim.
    Failed { message: String },
    /// The line matched no recognized shape: the connection is
    /// desynchronized.
    Desync,
}

/// Accumulates the property sequence of one response, line by line, in
/// arrival order with duplicate keys preserved.
pub struct ResponseDecoder {
    props: Vec<(String, String)>,
    saw_binary: bool,
}

impl View for ResponseDecoder {
    type V = Seq<(Seq<char>, Seq<char>)>;

    closed spec fn view(&self) -> Seq<(Seq<char>, Seq<char>)> {
        props_view(self.props@)
    }
}

impl ResponseDecoder {
    /// Whether a binary announcement has been consumed, so that the
    /// next input is the raw payload rather than a line.
    pub closed spec fn awaiting_binary(&self) -> bool {
        self.saw_binary
    }

    /// The decoder's invariant: it has seen the payload-announcing key
    /// exactly if it is awaiting the payload.
    pub closed spec fn wf(&self) -> bool {
        self.saw_binary == has_binary_key(props_view(self.props@))
    }

    /// A decoder for a fresh response.
    pub fn new() -> (r: Self)
        ensures
            r@ == Seq::<(Seq<char>, Seq<char>)>::empty(),
            r.wf(),
            !r.awaiting_binary(),
    {
        let r = ResponseDecoder { props: Vec::new(), saw_binary: false };
        proof {
            assert(props_view(r.props@) =~= Seq::<(Seq<char>, Seq<char>)>::empty());
        }
        r
    }

    /// Consumes one response line.
    pub fn feed(&mut self, line: &str) -> (step: DecodeStep)
        requires
            old(self).wf(),
            !old(self).awaiting_binary(),
        ensures
            final(self).wf(),
            is_success_line(line@) ==> (step matches DecodeStep::Complete
                && final(self)@ == old(self)@
                && !final(self).awaiting_binary()),
            !is_success_line(line@) && is_failure_line(line@)
                ==> (step matches DecodeStep::Failed { message }
                && message@ == line@
                && final(self)@ == old(self)@
                && !final(self).awaiting_binary()),
            !is_success_line(line@) && !is_failure_line(line@)
                ==> (parsed_property(line@) matches Some(kv) ==> (if kv.0 == binary_key() {
                match binary_count(kv.1) {
                    Some(n) => step matches DecodeStep::NeedBinary { count }
                        && count as int == n
                        && final(self)@ == old(self)@.push(kv)
                        && final(self).awaiting_binary(),
                    None => step matches DecodeStep::Desync
                        && final(self)@ == old(self)@
                        && !final(self).awaiting_binary(),
                }
            } else {
                step matches DecodeStep::Continue
                    && final(self)@ == old(self)@.push(kv)
                    && !final(self).awaiting_binary()
            })),
            !is_success_line(line@) && !is_failure_line(line@) && parsed_property(line@) is None
                ==> (step matches DecodeStep::Desync
                && final(self)@ == old(self)@
                && !final(self).awaiting_binary()),
    {
        match classify_line(line) {
            ResponseLine::Success => DecodeStep::Complete,
            ResponseLine::Failure { message } => DecodeStep::Failed { message },
            ResponseLine::Mismatch => DecodeStep::Desync,
            ResponseLine::Property { key, value } => {
                let is_bin = str_eq(key.as_str(), "binary");
                proof {
                    reveal_strlit("binary");
                    assert(("binary")@ =~= binary_key());
                }
                if is_bin {
                    match parse_count(value.as_str()) {
                        Some(n) => {
                            let ghost pre = props_view(self.props@);
                            self.props.push((key, value));
                            self.saw_binary = true;
                            proof {
                                assert(props_view(self.props@).drop_last() =~= pre);
                                assert(props_view(self.props@).last() == (key@, value@));
                                assert(has_binary_key(props_view(self.props@)));
                            }
                            DecodeStep::NeedBinary { count: n }
                        },
                        None => DecodeStep::Desync,
                    }
                } else {
                    let ghost pre = props_view(self.props@);
                    self.props.push((key, value));
                    proof {
                        assert(props_view(self.props@).drop_last() =~= pre);
                        assert(props_view(self.props@).last() == (key@, value@));
                        assert(!has_binary_key(props_view(self.props@))) by {
                            let cur = props_view(self.props@);
                            if has_binary_key(cur) {
                                let i = choose|i: int|
                                    0 <= i < cur.len() && (#[trigger] cur[i]).0 == binary_key();
                                if i < cur.len() - 1 {
                                    assert(pre[i] == cur[i]);
                                    assert(has_binary_key(pre));
                                }
                            }
                        }
                    }
                    DecodeStep::Continue
                }
            },
        }
    }

    /// Finishes a response whose terminator was `OK` with no payload.
    pub fn finish(self) -> (r: CommandResult)
        requires
            self.wf(),
            !self.awaiting_binary(),
        ensures
            r@.properties == self@,
            r@.binary is None,
            r@.wf(),
    {
        CommandResult::new(self.props)
    }

    /// Finishes a response whose property sequence announced the given
    /// payload.
    pub fn finish_binary(self, payload: Vec<u8>) -> (r: CommandResult)
        requires
            self.wf(),
            self.awaiting_binary(),
        ensures
            r@.properties == self@,
            r@.binary == Some(payload@),
            r@.wf(),
    {
        CommandResult::new_binary(self.props, payload)
    }

    /// Consumes response lines in order until one of them is terminal,
    /// and reports the first terminal step (or `Continue` if the lines
    /// ran out first). Lines after the terminal one are not consumed.
    pub fn run(&mut self, lines: &Vec<String>) -> (step: DecodeStep)
        requires
            old(self).wf(),
            !old(self).awaiting_binary(),
        ensures
            final(self).wf(),
            match decode_reply_from(strings_view(lines@), old(self)@) {
                ReplyShape::Finished(ps) => step matches DecodeStep::Complete && final(self)@ == ps
                    && !final(self).awaiting_binary(),
                ReplyShape::Refused(m) => step matches DecodeStep::Failed { message } && message@
                    == m,
                ReplyShape::BinaryAnnounced(n, ps) => step matches DecodeStep::NeedBinary { count }
                    && count as int == n && final(self)@ == ps && final(self).awaiting_binary(),
                ReplyShape::Broken => step matches DecodeStep::Desync
                    && !final(self).awaiting_binary(),
                ReplyShape::Truncated(ps) => step matches DecodeStep::Continue && final(self)@ == ps
                    && !final(self).awaiting_binary(),
            },
    {
        let ghost all = strings_view(lines@);
        proof {
            assert(all.skip(0) =~= all);
        }
        let mut i: usize = 0;
        while i < lines.len()
            invariant
                i <= lines.len(),
                all == strings_view(lines@),
                self.wf(),
                !self.awaiting_binary(),
                decode_reply_from(all.skip(i as int), self@) == decode_reply_from(
                    all,
                    old(self)@,
                ),
            decreases lines.len() - i,
        {
            proof {
                assert(all.skip(i as int).first() == all[i as int]);
                assert(all.skip(i as int).drop_first() =~= all.skip(i + 1));
                assert(all[i as int] == lines@[i as int]@);
            }
            let step = self.feed(lines[i].as_str());
            match step {
                DecodeStep::Continue => {},
                DecodeStep::Complete => {
                    return DecodeStep::Complete;
                },
                DecodeStep::NeedBinary { count } => {
                    return DecodeStep::NeedBinary { count };
                },
                DecodeStep::Failed { message } => {
                    return DecodeStep::Failed { message };
                },
                DecodeStep::Desync => {
                    return DecodeStep::Desync;
                },
            }
            i = i + 1;
        }
        proof {
            assert(all.skip(lines.len() as int) =~= Seq::<Seq<char>>::empty());
        }
        DecodeStep::Continue
    }
}

/// The outcome of decoding a whole reply from a sequence of lines.
pub enum ReplyShape {
    /// `OK` arrived: the properties accumulated before it.
    Finished(Seq<(Seq<char>, Seq<char>)>),
    /// `ACK` arrived, with its message.
    Refused(Seq<char>),
    /// A well-formed `binary: <n>` property arrived: the announced
    /// count, and the properties including the announcement itself.
    BinaryAnnounced(int, Seq<(Seq<char>, Seq<char>)>),
    /// A line matched no recognized shape.
    Broken,
    /// The lines ran out before a terminal shape.
    Truncated(Seq<(Seq<char>, Seq<char>)>),
}

/// Decodes a reply line by line, front to back, starting from the
/// already-accumulated properties.
pub open spec fn decode_reply_from(
    lines: Seq<Seq<char>>,
    acc: Seq<(Seq<char>, Seq<char>)>,
) -> ReplyShape
    decreases lines.len(),
{
    if lines.len() == 0 {
        ReplyShape::Truncated(acc)
    } else {
        let l = lines.first();
        if is_success_line(l) {
            ReplyShape::Finished(acc)
        } else if is_failure_line(l) {
            ReplyShape::Refused(l)
        } else {
            match parsed_property(l) {
                Some(kv) => if kv.0 == binary_key() {
                    match binary_count(kv.1) {
                        Some(n) => ReplyShape::BinaryAnnounced(n, acc.push(kv)),
                        None => ReplyShape::Broken,
                    }
                } else {
                    decode_reply_from(lines.drop_first(), acc.push(kv))
                },
                None => ReplyShape::Broken,
            }
        }
    }
}

/// Decodes a whole reply.
pub open spec fn decode_reply(lines: Seq<Seq<char>>) -> ReplyShape {
    decode_reply_from(lines, Seq::empty())
}

/// The success terminator line.
pub open spec fn success_line() -> Seq<char> {
    seq!['O', 'K']
}

/// The wire lines of a reply that carries the given properties and
/// succeeds: each property rendered in order, then `OK`.
pub open spec fn render_reply(props: Seq<(Seq<char>, Seq<char>)>) -> Seq<Seq<char>> {
    props.map_values(|p: (Seq<char>, Seq<char>)| render_prop(p.0, p.1)).push(success_line())
}

/// A property that survives the wire unchanged: its key and value
/// render unambiguously, and its key is not the payload announcement.
pub open spec fn wf_prop(p: (Seq<char>, Seq<char>)) -> bool {
    wf_key(p.0) && wf_value(p.1) && p.0 != binary_key()
}

proof fn lemma_reply_round_trip_from(props: Seq<(Seq<char>, Seq<char>)>, acc: Seq<(Seq<char>, Seq<char>)>, i: int)
    requires
        forall|j: int| 0 <= j < props.len() ==> wf_prop(#[trigger] props[j]),
        0 <= i <= props.len(),
    ensures
        decode_reply_from(render_reply(props).skip(i), acc) == ReplyShape::Finished(
            acc + props.skip(i),
        ),
    decreases props.len() - i,
{
    let lines = render_reply(props);
    assert(lines.len() == props.len() + 1);
    if i == props.len() {
        assert(lines.skip(i).first() == success_line());
        assert(is_success_line(success_line()));
        assert(acc + props.skip(i) =~= acc);
    } else {
        let p = props[i];
        assert(lines[i] == render_prop(p.0, p.1));
        assert(lines.skip(i).first() == lines[i]);
        crate::codec::lemma_parse_rendered(p.0, p.1);
        assert(!is_success_line(lines[i]) && !is_failure_line(lines[i]));
        assert(parsed_property(lines[i]) == Some((p.0, p.1)));
        assert(lines.skip(i).drop_first() =~= lines.skip(i + 1));
        lemma_reply_round_trip_from(props, acc.push(p), i + 1);
        assert(acc.push(p) + props.skip(i + 1) =~= acc + props.skip(i));
    }
}

/// Round trip: a reply rendered from well-formed properties decodes to
/// exactly those properties — same order, duplicates preserved, nothing
/// reordered or dropped.
pub proof fn lemma_reply_round_trip(props: Seq<(Seq<char>, Seq<char>)>)
    requires
        forall|j: int| 0 <= j < props.len() ==> wf_prop(#[trigger] props[j]),
    ensures
        decode_reply(render_reply(props)) == ReplyShape::Finished(props),
{
    lemma_reply_round_trip_from(props, Seq::empty(), 0);
    assert(render_reply(props).skip(0) =~= render_reply(props));
    assert(Seq::<(Seq<char>, Seq<char>)>::empty() + props.skip(0) =~= props);
}

/// Parses the byte count announced by a `binary` property.
fn parse_count(s: &str) -> (r: Option<usize>)
    ensures
        match r {
            Some(n) => binary_count(s@) == Some(n as int),
            None => binary_count(s@) is None,
        },
{
    crate::codec::parse_usize(s)
}

} // verus!
