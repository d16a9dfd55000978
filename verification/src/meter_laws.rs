//! What holds of the energy monitor, whatever it answers.
use vstd::prelude::*;
use vstd::utf8::{decode_utf8, valid_utf8};
use crate::iotawatt::{
    announced_length, answered_poll, blank_line_at, body_of, channel_named, channel_warned,
    complete, failed_poll, failure_event, failure_warnings, gives_up, head_length, headers_end,
    host_text, house_missing, input_place, input_value, lemma_headers_end, live_event, new_poller,
    output_names_of, output_place, output_value, paced, reported, request_text, resolved,
    response_error, status_line, status_warnings, wants_channel, ConfigInput, PollerV, PowerEventV,
    Status, StatusInput, StatusOutput,
};
use crate::number::{opt_quantity, QuantityV};
use crate::text::{blank, decimal, halves, lines_of, parsed_unsigned, same_folded, trimmed, words};
use crate::ui::{given_house, given_servers};

verus! {

// ---------------- names and channels ----------------

proof fn lemma_output_place(outputs: Seq<StatusOutput>, name: Seq<char>)
    ensures
        0 <= output_place(outputs, name) <= outputs.len(),
        forall|j: int|
            0 <= j < output_place(outputs, name) ==> !same_folded(
                (#[trigger] outputs[j]).name@,
                name,
            ),
        output_place(outputs, name) < outputs.len() ==> same_folded(
            outputs[output_place(outputs, name)].name@,
            name,
        ),
    decreases outputs.len(),
{
    if outputs.len() > 0 && !same_folded(outputs[0].name@, name) {
        let rest = outputs.drop_first();
        lemma_output_place(rest, name);
        assert forall|j: int| 0 <= j < output_place(outputs, name) implies !same_folded(
            (#[trigger] outputs[j]).name@,
            name,
        ) by {
            if j > 0 {
                assert(outputs[j] == rest[j - 1]);
            }
        }
    }
}

/// The value of a named output is that of the first output with the name, case and the white space
/// around it aside, and of no other.
pub proof fn an_output_is_found_by_its_name(s: Status, name: Seq<char>, i: int)
    requires
        !blank(name),
        0 <= i < s.outputs@.len(),
        same_folded(s.outputs@[i].name@, trimmed(name)),
        forall|j: int|
            0 <= j < i ==> !same_folded((#[trigger] s.outputs@[j]).name@, trimmed(name)),
    ensures
        output_value(s, name) == opt_quantity(s.outputs@[i].value),
{
    lemma_output_place(s.outputs@, trimmed(name));
    let k = output_place(s.outputs@, trimmed(name));
    if k < i {
        assert(!same_folded(s.outputs@[k].name@, trimmed(name)));
    } else if k > i {
        assert(!same_folded(s.outputs@[i].name@, trimmed(name)));
    }
}

/// An output that the device does not have has no value, and neither has one without a name.
pub proof fn an_absent_output_has_no_value(s: Status, name: Seq<char>)
    requires
        blank(name) || forall|j: int|
            0 <= j < s.outputs@.len() ==> !same_folded(
                (#[trigger] s.outputs@[j]).name@,
                trimmed(name),
            ),
    ensures
        output_value(s, name) is None,
{
    lemma_output_place(s.outputs@, trimmed(name));
}

proof fn lemma_input_place(inputs: Seq<StatusInput>, channel: i64)
    ensures
        0 <= input_place(inputs, channel) <= inputs.len(),
        forall|j: int|
            0 <= j < input_place(inputs, channel) ==> (#[trigger] inputs[j]).channel != channel,
        input_place(inputs, channel) < inputs.len() ==> inputs[input_place(
            inputs,
            channel,
        )].channel == channel,
    decreases inputs.len(),
{
    if inputs.len() > 0 && inputs[0].channel != channel {
        let rest = inputs.drop_first();
        lemma_input_place(rest, channel);
        assert forall|j: int| 0 <= j < input_place(inputs, channel) implies (
        #[trigger] inputs[j]).channel != channel by {
            if j > 0 {
                assert(inputs[j] == rest[j - 1]);
            }
        }
    }
}

/// The watts of a channel are those of the first input on it, and of no other. A channel without
/// an input has none.
pub proof fn an_input_is_found_by_its_channel(s: Status, channel: i64)
    ensures
        forall|i: int|
            #![trigger s.inputs@[i]]
            0 <= i < s.inputs@.len() && s.inputs@[i].channel == channel && (forall|j: int|
                0 <= j < i ==> (#[trigger] s.inputs@[j]).channel != channel) ==> input_value(
                s,
                channel,
            ) == opt_quantity(s.inputs@[i].watts),
        (forall|j: int| 0 <= j < s.inputs@.len() ==> (#[trigger] s.inputs@[j]).channel != channel)
            ==> input_value(s, channel) is None,
{
    lemma_input_place(s.inputs@, channel);
    let k = input_place(s.inputs@, channel);
    assert forall|i: int|
        #![trigger s.inputs@[i]]
        0 <= i < s.inputs@.len() && s.inputs@[i].channel == channel && (forall|j: int|
            0 <= j < i ==> (#[trigger] s.inputs@[j]).channel != channel) implies input_value(
        s,
        channel,
    ) == opt_quantity(s.inputs@[i].watts) by {
        if k < i {
            assert(s.inputs@[k].channel != channel);
        }
    }
}

/// The slot holds an input with the name, case and the white space around it aside.
pub open spec fn slot_named(slot: Option<ConfigInput>, name: Seq<char>) -> bool {
    slot matches Some(c) && same_folded(trimmed(c.name@), name)
}

/// The channel of a named input is that of the first slot with the name; empty slots are passed
/// over, and a name that no slot has gives no channel.
pub proof fn a_channel_is_found_by_its_name(inputs: Seq<Option<ConfigInput>>, name: Seq<char>)
    ensures
        match channel_named(inputs, name) {
            Some(ch) => exists|i: int|
                #![trigger inputs[i]]
                0 <= i < inputs.len() && slot_named(inputs[i], name) && inputs[i]->0.channel == ch
                    && forall|j: int| 0 <= j < i ==> !slot_named(#[trigger] inputs[j], name),
            None => forall|j: int| 0 <= j < inputs.len() ==> !slot_named(#[trigger] inputs[j], name),
        },
    decreases inputs.len(),
{
    if inputs.len() > 0 {
        let rest = inputs.drop_first();
        a_channel_is_found_by_its_name(rest, name);
        if slot_named(inputs[0], name) {
            assert(inputs[0]->0.channel == channel_named(inputs, name)->0);
        } else {
            match channel_named(rest, name) {
                Some(ch) => {
                    let i = choose|i: int|
                        #![trigger rest[i]]
                        0 <= i < rest.len() && slot_named(rest[i], name) && rest[i]->0.channel == ch
                            && forall|j: int| 0 <= j < i ==> !slot_named(#[trigger] rest[j], name);
                    assert(inputs[i + 1] == rest[i]);
                    assert forall|j: int| 0 <= j < i + 1 implies !slot_named(
                        #[trigger] inputs[j],
                        name,
                    ) by {
                        if j > 0 {
                            assert(inputs[j] == rest[j - 1]);
                        }
                    }
                },
                None => {
                    assert forall|j: int| 0 <= j < inputs.len() implies !slot_named(
                        #[trigger] inputs[j],
                        name,
                    ) by {
                        if j > 0 {
                            assert(inputs[j] == rest[j - 1]);
                        }
                    }
                },
            }
        }
    }
}

/// A status gives the house the value of its own output and the servers the watts of their own
/// channel: outputs do not count for the servers, nor inputs for the house.
pub proof fn each_value_comes_from_its_own_place(p: PollerV, s: Status, other: Status)
    ensures
        s.outputs == other.outputs ==> live_event(p, s)->house == live_event(p, other)->house,
        s.inputs == other.inputs ==> live_event(p, s)->servers == live_event(p, other)->servers,
        live_event(p, s) is Live,
        live_event(p, s)->house == output_value(s, p.house_output),
        p.servers_channel is None ==> live_event(p, s)->servers is None,
        p.servers_channel matches Some(ch) ==> live_event(p, s)->servers == input_value(s, ch),
{
}

// ---------------- the response ----------------

/// The end of a line, twice.
pub open spec fn blank_line() -> Seq<u8> {
    seq![13u8, 10u8, 13u8, 10u8]
}

/// A blank line begins at this byte.
pub open spec fn breaks_at(s: Seq<u8>, k: int) -> bool {
    s.subrange(k, k + 4) == blank_line()
}

/// No blank line begins within the headers.
pub open spec fn unbroken(head: Seq<u8>) -> bool {
    forall|k: int| 0 <= k < head.len() ==> !#[trigger] breaks_at(head + blank_line(), k)
}

/// A response is parted at its first blank line. What follows it is the body, up to the length that
/// the headers announce, and the response is complete once that much has come.
pub proof fn a_response_is_parted_at_its_first_blank_line(head: Seq<u8>, rest: Seq<u8>)
    requires
        unbroken(head),
    ensures
        ({
            let raw = head + blank_line() + rest;
            &&& headers_end(raw) == Some(head.len() as int)
            &&& head_length(head) is None ==> body_of(raw) == rest && !complete(raw)
            &&& head_length(head) matches Some(n) ==> {
                &&& n <= rest.len() ==> body_of(raw) == rest.take(n as int) && complete(raw)
                &&& n > rest.len() ==> body_of(raw) == rest && !complete(raw)
            }
        }),
{
    let raw = head + blank_line() + rest;
    let n = head.len() as int;
    lemma_headers_end(raw);
    assert(raw[n] == 13 && raw[n + 1] == 10 && raw[n + 2] == 13 && raw[n + 3] == 10);
    assert(blank_line_at(raw, n));
    assert forall|k: int| 0 <= k < n implies !blank_line_at(raw, k) by {
        if blank_line_at(raw, k) {
            let part = (head + blank_line()).subrange(k, k + 4);
            assert(part[0] == raw[k]);
            assert(part[1] == raw[k + 1]);
            assert(part[2] == raw[k + 2]);
            assert(part[3] == raw[k + 3]);
            assert(part =~= blank_line());
            assert(breaks_at(head + blank_line(), k));
        }
    }
    assert(headers_end(raw) == Some(n));
    assert(raw.take(n) =~= head);
    assert(raw.skip(n + 4) =~= rest);
}

/// The line is a `Content-Length` header.
pub open spec fn tells_length(line: Seq<char>) -> bool {
    halves(line, ':') matches Some((k, _)) && same_folded(trimmed(k), "content-length"@)
}

/// The length announced is the number in the first `Content-Length` header, in any case.
pub proof fn the_first_length_header_counts(lines: Seq<Seq<char>>, i: int)
    requires
        0 <= i < lines.len(),
        tells_length(lines[i]),
        forall|j: int| 0 <= j < i ==> !tells_length(#[trigger] lines[j]),
    ensures
        announced_length(lines) == parsed_unsigned(
            trimmed((halves(lines[i], ':')->0).1),
            usize::MAX as nat,
        ),
    decreases i,
{
    if i > 0 {
        let rest = lines.drop_first();
        assert(!tells_length(lines[0]));
        assert(rest[i - 1] == lines[i]);
        assert forall|j: int| 0 <= j < i - 1 implies !tells_length(#[trigger] rest[j]) by {
            assert(rest[j] == lines[j + 1]);
        }
        the_first_length_header_counts(rest, i - 1);
    }
}

/// No other header announces a length.
pub proof fn no_other_header_announces_a_length(lines: Seq<Seq<char>>)
    requires
        forall|j: int| 0 <= j < lines.len() ==> !tells_length(#[trigger] lines[j]),
    ensures
        announced_length(lines) is None,
    decreases lines.len(),
{
    if lines.len() > 0 {
        let rest = lines.drop_first();
        assert(!tells_length(lines[0]));
        assert forall|j: int| 0 <= j < rest.len() implies !tells_length(#[trigger] rest[j]) by {
            assert(rest[j] == lines[j + 1]);
        }
        no_other_header_announces_a_length(rest);
    }
}

/// The length is looked for in all the lines of the headers, where these are text.
pub proof fn the_length_is_looked_for_in_all_lines(head: Seq<u8>)
    ensures
        valid_utf8(head) ==> head_length(head) == announced_length(lines_of(decode_utf8(head))),
        !valid_utf8(head) ==> head_length(head) is None,
{
}

/// A response is taken where its first line has `200` for its second word, and only there.
#[verifier::spinoff_prover]
pub proof fn only_200_is_taken(head: Seq<u8>, rest: Seq<u8>)
    requires
        unbroken(head),
        valid_utf8(head),
    ensures
        response_error(head + blank_line() + rest) is None <==> {
            let lines = lines_of(decode_utf8(head));
            lines.len() > 0 && words(trimmed(lines[0])).len() > 1 && words(trimmed(lines[0]))[1]
                == "200"@
        },
{
    let raw = head + blank_line() + rest;
    a_response_is_parted_at_its_first_blank_line(head, rest);
    assert(raw.take(head.len() as int) =~= head);
    lemma_no_line();
    let line = status_line(decode_utf8(head));
    assert(response_error(raw) is None <==> words(line).len() > 1 && words(line)[1] == "200"@);
}

proof fn lemma_no_line()
    ensures
        words(trimmed(Seq::<char>::empty())).len() == 0,
{
    assert(trimmed(Seq::<char>::empty()) == Seq::<char>::empty());
    assert(words(Seq::<char>::empty()).len() == 0);
}

/// A response without a blank line is refused, and so is one whose headers are not text.
pub proof fn a_broken_response_is_refused(raw: Seq<u8>)
    ensures
        headers_end(raw) is None ==> response_error(raw) is Some,
        headers_end(raw) matches Some(n) ==> (!valid_utf8(raw.take(n)) ==> response_error(raw) is Some),
        headers_end(raw) is None ==> !complete(raw),
{
}

// ---------------- giving up ----------------

/// The poller after so many failures in a row.
pub open spec fn failed_times(p: PollerV, errors: Seq<Seq<char>>) -> PollerV
    decreases errors.len(),
{
    if errors.len() == 0 {
        p
    } else {
        failed_poll(failed_times(p, errors.drop_last()), errors.last())
    }
}

/// A device that answered is given up after exactly as many failures in a row as are allowed for,
/// whatever the reasons: not before, and with the last of them.
pub proof fn the_device_is_given_up_in_time(p: PollerV, errors: Seq<Seq<char>>)
    requires
        p.failures == 0,
        !p.fell_back,
        p.give_up_after >= 1,
        errors.len() < u32::MAX,
    ensures
        failed_times(p, errors).failures == errors.len(),
        failed_times(p, errors).give_up_after == p.give_up_after,
        failed_times(p, errors).fell_back <==> errors.len() >= p.give_up_after,
        gives_up(failed_times(p, errors)) <==> errors.len() + 1 == p.give_up_after,
        errors.len() > 0 ==> failed_times(p, errors).last_error == errors.last(),
        errors.len() >= p.give_up_after ==> failed_times(p, errors).servers_channel is None,
        errors.len() < p.give_up_after ==> failed_times(p, errors).servers_channel
            == p.servers_channel,
    decreases errors.len(),
{
    if errors.len() > 0 {
        the_device_is_given_up_in_time(p, errors.drop_last());
    }
}

/// Once the device answers again everything starts over: no failure is counted, nothing has been
/// given up, and what the poller looks for stays what it was.
pub proof fn an_answer_starts_over(p: PollerV)
    requires
        p.fell_back ==> p.failures > 0,
    ensures
        answered_poll(p).failures == 0,
        !answered_poll(p).fell_back,
        answered_poll(p).house_output == p.house_output,
        answered_poll(p).servers_input == p.servers_input,
        answered_poll(p).give_up_after == p.give_up_after,
        answered_poll(p).servers_channel == p.servers_channel,
        wants_channel(answered_poll(p)) <==> p.servers_channel is None && !blank(p.servers_input),
{
}

/// A reason is warned about when it is new, and giving up is warned about when it happens, last; a
/// reason that repeats is not.
pub proof fn a_reason_is_warned_about_once(p: PollerV, error: Seq<char>)
    ensures
        ({
            let warnings = failure_warnings(p, error);
            let fresh = if error != p.last_error {
                1int
            } else {
                0int
            };
            let last = if gives_up(p) {
                1int
            } else {
                0int
            };
            &&& warnings.len() == fresh + last
            &&& failure_warnings(failed_poll(p, error), error).len() <= 1
            &&& p.failures < u32::MAX && error != p.last_error ==> warnings[0] == "iotawatt: "@ + error
                + " (attempt "@ + decimal((p.failures + 1) as nat) + ")"@
        }),
{
}

/// A channel that was found is the one that is asked from then on; a name that was not found is
/// noted, and leaves the channel as it was.
pub proof fn a_channel_that_was_found_is_used(p: PollerV, ch: i64)
    ensures
        resolved(p, Some(ch)).servers_channel == Some(ch),
        !resolved(p, Some(ch)).name_warned,
        !wants_channel(resolved(p, Some(ch))),
        resolved(p, None).servers_channel == p.servers_channel,
        resolved(p, None).name_warned,
{
}

/// The house is missing from a status where it is configured and has no value there.
pub proof fn a_house_without_a_value_is_missing(p: PollerV, s: Status)
    ensures
        house_missing(p, s) <==> !blank(p.house_output) && live_event(p, s)->house is None,
{
}

/// The endpoint is written as its host, with its port behind it unless that is 80.
pub proof fn the_default_port_is_left_out(host: Seq<char>, port: u16)
    ensures
        host_text((host, 80)) == host,
        port != 80 ==> host_text((host, port)) == host + ":"@ + decimal(port as nat),
{
}

/// A request asks for its path at its host, asks for the connection to be closed, and ends with a
/// blank line.
pub proof fn a_request_asks_for_its_path(path: Seq<char>, host: Seq<char>, port: u16)
    ensures
        ({
            let lead = "GET "@ + path + " HTTP/1.1\r\nHost: "@ + host_text((host, port));
            let rest = "\r\nUser-Agent: barclock\r\nAccept: application/json\r\nConnection: close\r\n\r\n"@;
            request_text(path, (host, port)) == lead + rest
        }),
{
}

/// What the monitor gives is what its news says: both values where it answers, neither where it is
/// down.
pub proof fn news_give_what_they_say(house: Option<QuantityV>, servers: Option<QuantityV>)
    ensures
        given_house(PowerEventV::Live { house, servers }) == house,
        given_servers(PowerEventV::Live { house, servers }) == servers,
        given_house(PowerEventV::Down) is None,
        given_servers(PowerEventV::Down) is None,
{
}

/// The outputs are listed by their names, in their order.
pub proof fn outputs_are_listed_in_order(outputs: Seq<StatusOutput>, i: int)
    requires
        0 <= i < outputs.len(),
    ensures
        output_names_of(outputs).len() == outputs.len(),
        output_names_of(outputs)[i] == outputs[i].name@,
{
}

/// A poller starts with what it is to look for, gives up after as many failures as it is allowed and
/// after one at the least, and has neither failed nor given up.
pub proof fn a_poller_starts_with_nothing_known(house: Seq<char>, servers: Seq<char>, allowed: u32)
    ensures
        ({
            let p = new_poller(house, servers, allowed);
            &&& p.house_output == house
            &&& p.servers_input == servers
            &&& allowed >= 1 ==> p.give_up_after == allowed
            &&& allowed == 0 ==> p.give_up_after == 1
            &&& p.servers_channel is None
            &&& p.failures == 0
            &&& !p.fell_back && !p.name_warned
            &&& p.last_error.len() == 0
        }),
{
}

/// The screen is told that the device is down when it is given up, and not at any other failure.
pub proof fn the_screen_is_told_once_it_is_given_up(p: PollerV)
    ensures
        gives_up(p) ==> failure_event(p) == Some(PowerEventV::Down),
        !gives_up(p) ==> failure_event(p) is None,
{
}

/// A name that the device does not have is warned about once, until it is found or the device is
/// given up.
pub proof fn a_missing_name_is_warned_about_once(p: PollerV, s: Status, later: Status, ch: i64)
    ensures
        house_missing(p, s) && !p.name_warned ==> status_warnings(p, s) == 1,
        !house_missing(p, s) || p.name_warned ==> status_warnings(p, s) == 0,
        house_missing(p, s) ==> status_warnings(reported(p, s), later) == 0,
        reported(p, s).servers_channel == p.servers_channel,
        !p.name_warned ==> channel_warned(p, None),
        !channel_warned(resolved(p, None), None),
        !channel_warned(p, Some(ch)),
{
}

/// The device is polled no faster than every 200 ms and no slower than every five minutes, and given
/// from 200 ms to half a minute for its answer; what is configured within that is kept.
pub proof fn polling_keeps_within_its_bounds(poll: u64, timeout: u64)
    ensures
        200_000_000 <= paced(poll, timeout).0 <= 300_000_000_000,
        200_000_000 <= paced(poll, timeout).1 <= 30_000_000_000,
        200 <= poll <= 300_000 ==> paced(poll, timeout).0 == poll * 1_000_000,
        200 <= timeout <= 30_000 ==> paced(poll, timeout).1 == timeout * 1_000_000,
{
}

} // verus!
