//! HTTP response scanning for the optional network time source.
//!
//! The time fetch sends one fixed request and reads one response buffer.
//! Out of that buffer the pipeline needs exactly two things: the value of
//! the first `date: ` header line, which feeds the date parser, and where
//! the body begins (after the first blank line). The socket work itself is
//! an outside edge; these functions only look at the bytes.

use vstd::prelude::*;

verus! {

/// A CRLF CRLF (blank line) starts at `i`.
pub open spec fn blank_line_at(s: Seq<u8>, i: int) -> bool {
    &&& 0 <= i
    &&& i + 4 <= s.len()
    &&& s[i] == 13
    &&& s[i + 1] == 10
    &&& s[i + 2] == 13
    &&& s[i + 3] == 10
}

/// A header line starts at `i`: the buffer start or right after a line feed.
pub open spec fn line_start(s: Seq<u8>, i: int) -> bool {
    i == 0 || s[i - 1] == 10
}

/// The six bytes of `"date: "` stand at `i`, at the start of a line.
pub open spec fn date_line_at(s: Seq<u8>, i: int) -> bool {
    &&& 0 <= i
    &&& i + 6 <= s.len()
    &&& line_start(s, i)
    &&& s[i] == 100
    &&& s[i + 1] == 97
    &&& s[i + 2] == 116
    &&& s[i + 3] == 101
    &&& s[i + 4] == 58
    &&& s[i + 5] == 32
}

/// ASCII whitespace as header-value trimming sees it.
pub open spec fn is_space(b: u8) -> bool {
    b == 32 || b == 9 || b == 13 || b == 10
}

/// The line that starts at `from` runs exactly to `e`: no line feed
/// before it, and a line feed (or the buffer end) at it.
pub open spec fn line_end_at(s: Seq<u8>, from: int, e: int) -> bool {
    &&& from <= e <= s.len()
    &&& (forall|j: int| from <= j < e ==> s[j] != 10)
    &&& (e < s.len() ==> s[e] == 10)
}

/// `v` is `s[from..e)` with its leading and trailing whitespace removed.
pub open spec fn trimmed_of(s: Seq<u8>, from: int, e: int, v: Seq<u8>) -> bool {
    exists|a: int, b: int|
        {
            &&& from <= a <= b <= e
            &&& (forall|j: int| from <= j < a ==> is_space(#[trigger] s[j]))
            &&& (forall|j: int| b <= j < e ==> is_space(#[trigger] s[j]))
            &&& (a < b ==> !is_space(s[a]) && !is_space(s[b - 1]))
            &&& v == s.subrange(a, b)
        }
}

/// Index of the first blank line, if the response has one.
pub fn find_blank_line(resp: &[u8]) -> (r: Option<usize>)
    ensures
        r matches Some(i) ==> blank_line_at(resp@, i as int) && (forall|j: int|
            0 <= j < i ==> !blank_line_at(resp@, j)),
        r is None ==> forall|j: int| !blank_line_at(resp@, j),
{
    if resp.len() < 4 {
        return None;
    }
    let last_start = resp.len() - 4;
    let mut i: usize = 0;
    while i <= last_start
        invariant
            0 <= i <= last_start + 1,
            last_start == resp@.len() - 4,
            forall|j: int| 0 <= j < i ==> !blank_line_at(resp@, j),
        decreases last_start + 1 - i,
    {
        if resp[i] == 13 && resp[i + 1] == 10 && resp[i + 2] == 13 && resp[i + 3] == 10 {
            return Some(i);
        }
        i = i + 1;
    }
    None
}

/// The response body: everything after the first blank line, or nothing
/// when the response has none.
pub fn response_body<'a>(resp: &'a [u8]) -> (body: &'a [u8])
    ensures
        (exists|i: int| blank_line_at(resp@, i)) ==> exists|i: int|
            {
                &&& blank_line_at(resp@, i)
                &&& (forall|j: int| 0 <= j < i ==> !blank_line_at(resp@, j))
                &&& body@ == resp@.subrange(i + 4, resp@.len() as int)
            },
        (forall|i: int| !blank_line_at(resp@, i)) ==> body@.len() == 0,
{
    match find_blank_line(resp) {
        Some(i) => {
            let n = resp.len();
            vstd::slice::slice_subrange(resp, i + 4, n)
        },
        None => vstd::slice::slice_subrange(resp, 0, 0),
    }
}

/// Index right after `"date: "` on the first date header line, if any.
fn find_date_value(resp: &[u8]) -> (r: Option<usize>)
    ensures
        r matches Some(v) ==> v >= 6 && date_line_at(resp@, v - 6) && (forall|j: int|
            0 <= j < v - 6 ==> !date_line_at(resp@, j)),
        r is None ==> forall|j: int| !date_line_at(resp@, j),
{
    if resp.len() < 6 {
        return None;
    }
    let last_start = resp.len() - 6;
    let mut i: usize = 0;
    while i <= last_start
        invariant
            0 <= i <= last_start + 1,
            last_start == resp@.len() - 6,
            forall|j: int| 0 <= j < i ==> !date_line_at(resp@, j),
        decreases last_start + 1 - i,
    {
        let starts = i == 0 || resp[i - 1] == 10;
        if starts && resp[i] == 100 && resp[i + 1] == 97 && resp[i + 2] == 116 && resp[i + 3]
            == 101 && resp[i + 4] == 58 && resp[i + 5] == 32 {
            return Some(i + 6);
        }
        i = i + 1;
    }
    None
}

fn line_end_from(resp: &[u8], from: usize) -> (e: usize)
    requires
        from <= resp@.len(),
    ensures
        from <= e <= resp@.len(),
        forall|j: int| from <= j < e ==> resp@[j] != 10,
        e < resp@.len() ==> resp@[e as int] == 10,
{
    let mut i: usize = from;
    while i < resp.len()
        invariant
            from <= i <= resp@.len(),
            forall|j: int| from <= j < i ==> resp@[j] != 10,
        decreases resp@.len() - i,
    {
        if resp[i] == 10 {
            return i;
        }
        i = i + 1;
    }
    i
}

/// The value of the first `date: ` header line: the bytes between the
/// `"date: "` prefix and the end of that line, with surrounding ASCII
/// whitespace removed — exactly what the date parser is fed. `None`
/// exactly when no line of the response starts with `"date: "`.
pub fn extract_date_value<'a>(resp: &'a [u8]) -> (r: Option<&'a [u8]>)
    ensures
        r is Some <==> exists|i: int| date_line_at(resp@, i),
        r matches Some(v) ==> exists|i: int, e: int|
            {
                &&& #[trigger] date_line_at(resp@, i)
                &&& (forall|j: int| 0 <= j < i ==> !date_line_at(resp@, j))
                &&& #[trigger] line_end_at(resp@, i + 6, e)
                &&& trimmed_of(resp@, i + 6, e, v@)
            },
{
    let start = match find_date_value(resp) {
        Some(v) => v,
        None => {
            assert(!(exists|i: int| date_line_at(resp@, i)));
            return None;
        },
    };
    proof {
        assert(exists|i: int| date_line_at(resp@, i)) by {
            assert(date_line_at(resp@, start - 6));
        }
    }
    let end = line_end_from(resp, start);
    let mut a: usize = start;
    let mut b: usize = end;
    while a < b && is_space_byte(resp[a])
        invariant
            start <= a <= b <= end <= resp@.len(),
            forall|j: int| start <= j < a ==> is_space(#[trigger] resp@[j]),
        decreases b - a,
    {
        a = a + 1;
    }
    while b > a && is_space_byte(resp[b - 1])
        invariant
            start <= a <= b <= end <= resp@.len(),
            forall|j: int| start <= j < a ==> is_space(#[trigger] resp@[j]),
            forall|j: int| b <= j < end ==> is_space(#[trigger] resp@[j]),
            a < b ==> !is_space(resp@[a as int]),
        decreases b - a,
    {
        b = b - 1;
    }
    let v = vstd::slice::slice_subrange(resp, a, b);
    proof {
        let i = start - 6;
        let e = end as int;
        assert(trimmed_of(resp@, start as int, e, v@)) by {
            assert({
                &&& start as int <= a as int <= b as int <= e
                &&& (forall|j: int| start <= j < a ==> is_space(#[trigger] resp@[j]))
                &&& (forall|j: int| b <= j < e ==> is_space(#[trigger] resp@[j]))
                &&& (a < b ==> !is_space(resp@[a as int]) && !is_space(resp@[b - 1]))
                &&& v@ == resp@.subrange(a as int, b as int)
            });
        }
        assert(exists|i2: int, e2: int|
            {
                &&& #[trigger] date_line_at(resp@, i2)
                &&& (forall|j: int| 0 <= j < i2 ==> !date_line_at(resp@, j))
                &&& #[trigger] line_end_at(resp@, i2 + 6, e2)
                &&& trimmed_of(resp@, i2 + 6, e2, v@)
            }) by {
            assert(date_line_at(resp@, i));
            assert(line_end_at(resp@, i + 6, e));
            assert(trimmed_of(resp@, i + 6, e, v@));
        }
    }
    Some(v)
}

fn is_space_byte(c: u8) -> (r: bool)
    ensures
        r == is_space(c),
{
    c == 32 || c == 9 || c == 13 || c == 10
}

/// The one request the time fetch sends: a plain `GET /` with the given
/// host name and connection close.
pub fn http_get_request(host: &[u8]) -> (req: Vec<u8>)
    ensures
        req@ == "GET / HTTP/1.1\r\nHost: "@.map_values(|c: char| c as u8) + host@
            + "\r\nConnection: close\r\n\r\n"@.map_values(|c: char| c as u8),
{
    let mut req: Vec<u8> = Vec::new();
    append_literal_prefix(&mut req);
    let mut i: usize = 0;
    let ghost mid = req@;
    while i < host.len()
        invariant
            0 <= i <= host@.len(),
            req@ == mid + host@.take(i as int),
        decreases host@.len() - i,
    {
        let c = host[i];
        req.push(c);
        proof {
            assert(req@ =~= mid + host@.take(i + 1));
        }
        i = i + 1;
    }
    proof {
        assert(host@.take(host@.len() as int) =~= host@);
    }
    append_literal_suffix(&mut req);
    req
}

fn append_literal_prefix(req: &mut Vec<u8>)
    ensures
        final(req)@ == old(req)@ + "GET / HTTP/1.1\r\nHost: "@.map_values(|c: char| c as u8),
{
    proof {
        reveal_strlit("GET / HTTP/1.1\r\nHost: ");
    }
    let bytes: [u8; 22] = [
        71, 69, 84, 32, 47, 32, 72, 84, 84, 80, 47, 49, 46, 49, 13, 10, 72, 111, 115, 116, 58, 32,
    ];
    let mut i: usize = 0;
    let ghost lit = "GET / HTTP/1.1\r\nHost: "@.map_values(|c: char| c as u8);
    while i < 22
        invariant
            0 <= i <= 22,
            lit.len() == 22,
            bytes@.len() == 22,
            forall|j: int| 0 <= j < 22 ==> bytes@[j] == lit[j],
            req@ == old(req)@ + lit.take(i as int),
        decreases 22 - i,
    {
        req.push(bytes[i]);
        proof {
            assert(req@ =~= old(req)@ + lit.take(i + 1));
        }
        i = i + 1;
    }
    assert(final(req)@ =~= old(req)@ + lit);
}

fn append_literal_suffix(req: &mut Vec<u8>)
    ensures
        final(req)@ == old(req)@ + "\r\nConnection: close\r\n\r\n"@.map_values(|c: char| c as u8),
{
    proof {
        reveal_strlit("\r\nConnection: close\r\n\r\n");
    }
    let bytes: [u8; 23] = [
        13, 10, 67, 111, 110, 110, 101, 99, 116, 105, 111, 110, 58, 32, 99, 108, 111, 115, 101, 13,
        10, 13, 10,
    ];
    let mut i: usize = 0;
    let ghost lit = "\r\nConnection: close\r\n\r\n"@.map_values(|c: char| c as u8);
    while i < 23
        invariant
            0 <= i <= 23,
            lit.len() == 23,
            bytes@.len() == 23,
            forall|j: int| 0 <= j < 23 ==> bytes@[j] == lit[j],
            req@ == old(req)@ + lit.take(i as int),
        decreases 23 - i,
    {
        req.push(bytes[i]);
        proof {
            assert(req@ =~= old(req)@ + lit.take(i + 1));
        }
        i = i + 1;
    }
    assert(final(req)@ =~= old(req)@ + lit);
}

} // verus!
