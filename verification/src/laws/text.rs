//! Payloads in full, and what is written read back.

use crate::event::EventView;
use crate::json::ScalarView;
use vstd::prelude::*;

verus! {

/// The value that a decimal numeral stands for.
pub open spec fn numeral_value(text: Seq<char>) -> int
    decreases text.len(),
{
    if text.len() == 0 {
        0
    } else {
        10 * numeral_value(text.drop_last()) + (text.last() as int - '0' as int)
    }
}

/// A number is written in decimal digits that stand for it, without a leading
/// nought.
pub proof fn law_numbers_read_back(n: nat)
    ensures
        ({
            let text = crate::json::decimal(n);
            &&& numeral_value(text) == n
            &&& text.len() >= 1
            &&& forall|i: int| 0 <= i < text.len() ==> '0' <= #[trigger] text[i] <= '9'
            &&& n > 0 ==> text[0] != '0'
        }),
    decreases n,
{
    let text = crate::json::decimal(n);
    if n < 10 {
        assert(text.drop_last() =~= Seq::<char>::empty());
        assert(numeral_value(text.drop_last()) == 0);
    } else {
        law_numbers_read_back(n / 10);
        assert(text.drop_last() =~= crate::json::decimal(n / 10));
    }
}

/// The value of a lower-case hexadecimal digit.
pub open spec fn hex_value(c: char) -> int {
    if '0' <= c <= '9' {
        c as int - '0' as int
    } else {
        c as int - 'a' as int + 10
    }
}

pub open spec fn with_first(c: char, rest: Option<Seq<char>>) -> Option<Seq<char>> {
    match rest {
        Some(rest) => Some(seq![c] + rest),
        None => None,
    }
}

/// What the inside of a JSON string stands for; nothing, where it holds a bare
/// quote or control character, or an escape that there is not.
pub open spec fn unescaped(text: Seq<char>) -> Option<Seq<char>>
    decreases text.len(),
{
    if text.len() == 0 {
        Some(Seq::empty())
    } else if text[0] == '"' || (text[0] as u32) < 0x20 {
        None
    } else if text[0] != '\\' {
        with_first(text[0], unescaped(text.skip(1)))
    } else if text.len() < 2 {
        None
    } else if text[1] == '"' || text[1] == '\\' || text[1] == '/' {
        with_first(text[1], unescaped(text.skip(2)))
    } else if text[1] == 'b' {
        with_first(0x08u8 as char, unescaped(text.skip(2)))
    } else if text[1] == 't' {
        with_first(0x09u8 as char, unescaped(text.skip(2)))
    } else if text[1] == 'n' {
        with_first(0x0au8 as char, unescaped(text.skip(2)))
    } else if text[1] == 'f' {
        with_first(0x0cu8 as char, unescaped(text.skip(2)))
    } else if text[1] == 'r' {
        with_first(0x0du8 as char, unescaped(text.skip(2)))
    } else if text[1] == 'u' && text.len() >= 6 {
        with_first(
            (hex_value(text[2]) * 4096 + hex_value(text[3]) * 256 + hex_value(text[4]) * 16
                + hex_value(text[5])) as char,
            unescaped(text.skip(6)),
        )
    } else {
        None
    }
}

proof fn lemma_escape_reads_back(c: char, rest: Seq<char>)
    ensures
        unescaped(crate::json::escaped(c) + rest) == with_first(c, unescaped(rest)),
{
    let e = crate::json::escaped(c);
    let text = e + rest;
    assert(text.skip(e.len() as int) =~= rest);
    assert forall|i: int| 0 <= i < e.len() implies text[i] == e[i] by {}
}

proof fn lemma_escaped_from_the_front(s: Seq<char>)
    requires
        s.len() > 0,
    ensures
        crate::json::escaped_all(s) == crate::json::escaped(s[0]) + crate::json::escaped_all(
            s.drop_first(),
        ),
    decreases s.len(),
{
    let rest = s.drop_first();
    if s.len() == 1 {
        assert(s.drop_last() =~= Seq::<char>::empty());
        assert(rest =~= Seq::<char>::empty());
        assert(crate::json::escaped_all(s.drop_last()) =~= Seq::<char>::empty());
        assert(crate::json::escaped_all(s) =~= crate::json::escaped(s[0])
            + crate::json::escaped_all(rest));
    } else {
        lemma_escaped_from_the_front(s.drop_last());
        assert(s.drop_last().drop_first() =~= rest.drop_last());
        assert(crate::json::escaped_all(s) =~= crate::json::escaped(s[0])
            + crate::json::escaped_all(rest));
    }
}

proof fn lemma_text_reads_back(s: Seq<char>)
    ensures
        unescaped(crate::json::escaped_all(s)) == Some(s),
    decreases s.len(),
{
    if s.len() > 0 {
        lemma_escaped_from_the_front(s);
        lemma_text_reads_back(s.drop_first());
        lemma_escape_reads_back(s[0], crate::json::escaped_all(s.drop_first()));
        assert(seq![s[0]] + s.drop_first() =~= s);
    } else {
        assert(s =~= Seq::<char>::empty());
    }
}

/// A text is written between quotes, and what stands between them reads back as
/// the text itself.
pub proof fn law_texts_read_back(s: Seq<char>)
    ensures
        ({
            let text = crate::json::quoted(s);
            &&& text.len() >= 2
            &&& text[0] == '"'
            &&& text[text.len() - 1] == '"'
            &&& unescaped(text.subrange(1, text.len() - 1)) == Some(s)
        }),
{
    let text = crate::json::quoted(s);
    lemma_text_reads_back(s);
    assert(text.subrange(1, text.len() - 1) =~= crate::json::escaped_all(s));
}

/// A member of an object as it stands in its text.
pub open spec fn member_text(name: Seq<char>, value: Seq<char>) -> Seq<char> {
    crate::json::quoted(name) + ":"@ + value
}

/// An object without members is a pair of braces. One more member at the end is
/// written behind the others and a comma.
pub proof fn law_one_more_member(
    members: Seq<(Seq<char>, ScalarView)>,
    name: Seq<char>,
    value: ScalarView,
)
    ensures
        crate::json::object_body(Seq::empty()).len() == 0,
        crate::json::object_text(members) == "{"@ + crate::json::object_body(members) + "}"@,
        crate::json::object_body(members.push((name, value))) == if members.len() == 0 {
            member_text(name, value.rendered())
        } else {
            crate::json::object_body(members) + ","@ + member_text(name, value.rendered())
        },
{
    let more = members.push((name, value));
    assert(more.drop_last() =~= members);
    assert(more.last() == (name, value));
    assert(members.len() == 0 ==> crate::json::object_body(more) =~= member_text(
        name,
        value.rendered(),
    ));
    assert(members.len() > 0 ==> crate::json::object_body(more) =~= crate::json::object_body(members)
        + ","@ + member_text(name, value.rendered()));
}

/// The payload of a completed call, in full: the texts in quotes, the duration in
/// decimal, and the subject in quotes or `null`.
pub proof fn law_payload_of_a_completed_call(
    tool_name: Seq<char>,
    request_id: Seq<char>,
    duration_ms: u64,
    identity_kind: Seq<char>,
    subject_id: Option<Seq<char>>,
)
    ensures
        (EventView::ToolCallCompleted {
            tool_name,
            request_id,
            duration_ms,
            identity_kind,
            subject_id,
        }).payload() == "{"@ + (member_text(
            "event"@,
            crate::json::quoted("tool_call_completed"@),
        ) + ","@ + member_text("tool_name"@, crate::json::quoted(tool_name)) + ","@ + member_text(
            "request_id"@,
            crate::json::quoted(request_id),
        ) + ","@ + member_text("duration_ms"@, crate::json::decimal(duration_ms as nat)) + ","@
            + member_text("identity_kind"@, crate::json::quoted(identity_kind)) + ","@
            + member_text(
            "subject_id"@,
            match subject_id {
                Some(s) => crate::json::quoted(s),
                None => "null"@,
            },
        )) + "}"@,
{
    let event = EventView::ToolCallCompleted {
        tool_name,
        request_id,
        duration_ms,
        identity_kind,
        subject_id,
    };
    let subject = match subject_id {
        Some(s) => ScalarView::Text(s),
        None => ScalarView::Null,
    };
    let m0 = Seq::<(Seq<char>, ScalarView)>::empty();
    let m1 = m0.push(("event"@, ScalarView::Text("tool_call_completed"@)));
    let m2 = m1.push(("tool_name"@, ScalarView::Text(tool_name)));
    let m3 = m2.push(("request_id"@, ScalarView::Text(request_id)));
    let m4 = m3.push(("duration_ms"@, ScalarView::Number(duration_ms)));
    let m5 = m4.push(("identity_kind"@, ScalarView::Text(identity_kind)));
    let m6 = m5.push(("subject_id"@, subject));
    law_one_more_member(m0, "event"@, ScalarView::Text("tool_call_completed"@));
    law_one_more_member(m1, "tool_name"@, ScalarView::Text(tool_name));
    law_one_more_member(m2, "request_id"@, ScalarView::Text(request_id));
    law_one_more_member(m3, "duration_ms"@, ScalarView::Number(duration_ms));
    law_one_more_member(m4, "identity_kind"@, ScalarView::Text(identity_kind));
    law_one_more_member(m5, "subject_id"@, subject);
    assert(event.members() =~= m6);
}

/// The payload of a failed call, in full.
pub proof fn law_payload_of_a_failed_call(
    tool_name: Seq<char>,
    request_id: Seq<char>,
    error_message: Seq<char>,
    identity_kind: Seq<char>,
)
    ensures
        (EventView::ToolCallError {
            tool_name,
            request_id,
            error_message,
            identity_kind,
        }).payload() == "{"@ + (member_text("event"@, crate::json::quoted("tool_call_error"@))
            + ","@ + member_text("tool_name"@, crate::json::quoted(tool_name)) + ","@ + member_text(
            "request_id"@,
            crate::json::quoted(request_id),
        ) + ","@ + member_text("error_message"@, crate::json::quoted(error_message)) + ","@
            + member_text("identity_kind"@, crate::json::quoted(identity_kind))) + "}"@,
{
    let event = EventView::ToolCallError { tool_name, request_id, error_message, identity_kind };
    let m0 = Seq::<(Seq<char>, ScalarView)>::empty();
    let m1 = m0.push(("event"@, ScalarView::Text("tool_call_error"@)));
    let m2 = m1.push(("tool_name"@, ScalarView::Text(tool_name)));
    let m3 = m2.push(("request_id"@, ScalarView::Text(request_id)));
    let m4 = m3.push(("error_message"@, ScalarView::Text(error_message)));
    let m5 = m4.push(("identity_kind"@, ScalarView::Text(identity_kind)));
    law_one_more_member(m0, "event"@, ScalarView::Text("tool_call_error"@));
    law_one_more_member(m1, "tool_name"@, ScalarView::Text(tool_name));
    law_one_more_member(m2, "request_id"@, ScalarView::Text(request_id));
    law_one_more_member(m3, "error_message"@, ScalarView::Text(error_message));
    law_one_more_member(m4, "identity_kind"@, ScalarView::Text(identity_kind));
    assert(event.members() =~= m5);
}

/// The payload of a slow response, in full.
pub proof fn law_payload_of_a_slow_response(
    tool_name: Seq<char>,
    request_id: Seq<char>,
    duration_ms: u64,
    threshold_ms: u64,
)
    ensures
        (EventView::SlowResponse {
            tool_name,
            request_id,
            duration_ms,
            threshold_ms,
        }).payload() == "{"@ + (member_text("event"@, crate::json::quoted("slow_response"@))
            + ","@ + member_text("tool_name"@, crate::json::quoted(tool_name)) + ","@ + member_text(
            "request_id"@,
            crate::json::quoted(request_id),
        ) + ","@ + member_text("duration_ms"@, crate::json::decimal(duration_ms as nat)) + ","@
            + member_text("threshold_ms"@, crate::json::decimal(threshold_ms as nat))) + "}"@,
{
    let event = EventView::SlowResponse { tool_name, request_id, duration_ms, threshold_ms };
    let m0 = Seq::<(Seq<char>, ScalarView)>::empty();
    let m1 = m0.push(("event"@, ScalarView::Text("slow_response"@)));
    let m2 = m1.push(("tool_name"@, ScalarView::Text(tool_name)));
    let m3 = m2.push(("request_id"@, ScalarView::Text(request_id)));
    let m4 = m3.push(("duration_ms"@, ScalarView::Number(duration_ms)));
    let m5 = m4.push(("threshold_ms"@, ScalarView::Number(threshold_ms)));
    law_one_more_member(m0, "event"@, ScalarView::Text("slow_response"@));
    law_one_more_member(m1, "tool_name"@, ScalarView::Text(tool_name));
    law_one_more_member(m2, "request_id"@, ScalarView::Text(request_id));
    law_one_more_member(m3, "duration_ms"@, ScalarView::Number(duration_ms));
    law_one_more_member(m4, "threshold_ms"@, ScalarView::Number(threshold_ms));
    assert(event.members() =~= m5);
}

} // verus!
