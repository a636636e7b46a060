//! A workload whose whole state is in memory: a counter, a tally of requests, a short log and the
//! stamp of the process. After a migration the counter carries on and the stamp is the same. A
//! restart would show in both.

use vstd::prelude::*;
use vstd::string::*;

use crate::hostd::api;
use crate::hostd::api::lossy_text;
use crate::text;
use crate::text::{
    begins_with, chars_of, decimal_of, parse_number, same_text, split_on, string_of, words_of,
};

verus! {

/// How many entries the log keeps.
pub const LOG_ENTRIES: usize = 20;

/// The longest stall that a request can ask for, in seconds.
pub const MAX_STALL_SECS: u64 = 30;

/// What the process holds in memory.
#[derive(Debug)]
pub struct State {
    /// How often the counter was bumped.
    pub counter: u64,
    /// How many requests were handled.
    pub requests: u64,
    /// The stamp of the process, set once.
    pub boot_id: u64,
    /// The latest bumps, the newest last.
    pub log: Vec<String>,
}

/// What the process holds in memory, as plain values.
#[verifier::ext_equal]
pub ghost struct Memory {
    /// How often the counter was bumped.
    pub counter: u64,
    /// How many requests were handled.
    pub requests: u64,
    /// The stamp of the process.
    pub boot_id: u64,
    /// The latest bumps, the newest last.
    pub log: Seq<Seq<char>>,
}

impl View for State {
    type V = Memory;

    open spec fn view(&self) -> Memory {
        Memory {
            counter: self.counter,
            requests: self.requests,
            boot_id: self.boot_id,
            log: text::views(self.log@),
        }
    }
}

// ---------------------------------------------------------------------------
// Requests
// ---------------------------------------------------------------------------

/// The path that a request routes by: what stands before the first question mark.
pub open spec fn routed(path: Seq<char>) -> Seq<char> {
    text::split(path, '?')[0]
}

/// What a request is logged as, if it bumps the counter.
pub open spec fn bump(method: Seq<char>, path: Seq<char>) -> Option<Seq<char>> {
    if method != "POST"@ {
        None
    } else if routed(path) == "/inc"@ {
        Some("inc"@)
    } else if routed(path) == "/busy"@ {
        Some("busy"@)
    } else {
        None
    }
}

/// Whether a request asks for the state.
pub open spec fn reads(method: Seq<char>, path: Seq<char>) -> bool {
    method == "GET"@ && (routed(path) == "/state"@ || routed(path) == "/"@)
}

/// The number after `n`, zero after the last one.
pub open spec fn successor(n: u64) -> u64 {
    if n == u64::MAX {
        0
    } else {
        (n + 1) as u64
    }
}

/// The newest entries of `log`, as many as are kept.
pub open spec fn newest(log: Seq<Seq<char>>) -> Seq<Seq<char>> {
    if log.len() > LOG_ENTRIES {
        log.skip(log.len() - LOG_ENTRIES)
    } else {
        log
    }
}

/// The entry for a bump to `n`.
pub open spec fn entry(label: Seq<char>, n: u64) -> Seq<char> {
    label + " -> "@ + text::decimal(n as nat)
}

impl Memory {
    /// The memory after a request.
    pub open spec fn after(self, method: Seq<char>, path: Seq<char>) -> Memory {
        let counted = Memory { requests: successor(self.requests), ..self };
        match bump(method, path) {
            Some(label) => Memory {
                counter: successor(self.counter),
                log: newest(self.log.push(entry(label, successor(self.counter)))),
                ..counted
            },
            None => counted,
        }
    }

    /// The memory after requests, each a method and a path.
    pub open spec fn after_all(self, requests: Seq<(Seq<char>, Seq<char>)>) -> Memory
        decreases requests.len(),
    {
        if requests.len() == 0 {
            self
        } else {
            self.after_all(requests.drop_last()).after(requests.last().0, requests.last().1)
        }
    }

    /// The short view: the stamp and the counter.
    pub open spec fn compact(self) -> Seq<char> {
        "{\"boot_id\":"@ + text::decimal(self.boot_id as nat) + ",\"counter\":"@ + text::decimal(
            self.counter as nat,
        ) + "}"@
    }

    /// The whole view.
    pub open spec fn full(self) -> Seq<char> {
        "{\"boot_id\":"@ + text::decimal(self.boot_id as nat) + ",\"counter\":"@ + text::decimal(
            self.counter as nat,
        ) + ",\"requests\":"@ + text::decimal(self.requests as nat) + ",\"recent\":["@ + listed(
            self.log,
        ) + "]}"@
    }

    /// The answer to a request, given by the memory after it.
    pub open spec fn answers(self, method: Seq<char>, path: Seq<char>, r: (u16, Seq<char>)) -> bool {
        if bump(method, path) is Some {
            r == (200u16, self.compact())
        } else if reads(method, path) {
            r == (200u16, self.full())
        } else {
            r == (404u16, "{\"error\":\"not found\"}"@)
        }
    }
}

/// `entry` with single quotes for double ones.
pub open spec fn softened(entry: Seq<char>) -> Seq<char> {
    entry.map_values(
        |c: char|
            if c == '"' {
                '\''
            } else {
                c
            },
    )
}

/// The entries in double quotes, with commas between them.
pub open spec fn listed(log: Seq<Seq<char>>) -> Seq<char>
    decreases log.len(),
{
    if log.len() == 0 {
        Seq::empty()
    } else if log.len() == 1 {
        "\""@ + softened(log[0]) + "\""@
    } else {
        listed(log.drop_last()) + ",\""@ + softened(log.last()) + "\""@
    }
}

/// `entry` with single quotes for double ones.
fn soften(entry: &str) -> (out: String)
    ensures
        out@ == softened(entry@),
{
    let chars = chars_of(entry);
    let mut out: String = String::new();
    let mut i: usize = 0;
    while i < chars.len()
        invariant
            i <= chars@.len(),
            chars@ == entry@,
            out@ == softened(entry@).take(i as int),
        decreases chars@.len() - i,
    {
        proof {
            assert(softened(entry@).take(i + 1) =~= softened(entry@).take(i as int).push(
                softened(entry@)[i as int],
            ));
        }
        out.push(
            if chars[i] == '"' {
                '\''
            } else {
                chars[i]
            },
        );
        i = i + 1;
    }
    proof {
        assert(softened(entry@).take(i as int) =~= softened(entry@));
    }
    out
}

/// The entries in double quotes, with commas between them.
fn list(log: &Vec<String>) -> (out: String)
    ensures
        out@ == listed(text::views(log@)),
{
    let ghost all = text::views(log@);
    let mut out: String = String::new();
    let mut i: usize = 0;
    proof {
        assert(all.take(0) =~= Seq::<Seq<char>>::empty());
        assert(out@ =~= Seq::<char>::empty());
    }
    while i < log.len()
        invariant
            i <= log@.len(),
            all == text::views(log@),
            out@ == listed(all.take(i as int)),
        decreases log@.len() - i,
    {
        let ghost next = all.take(i + 1);
        proof {
            assert(next.drop_last() =~= all.take(i as int));
            assert(next.last() == log@[i as int]@);
        }
        if i == 0 {
            proof {
                assert(next[0] == log@[0]@);
            }
            out = "\"".to_owned();
        } else {
            out.append(",\"");
        }
        out.append(&soften(&log[i]));
        out.append("\"");
        i = i + 1;
    }
    proof {
        assert(all.take(i as int) =~= all);
    }
    out
}

/// The short view of a state: its stamp and its counter.
pub fn compact_json(state: &State) -> (out: String)
    ensures
        out@ == state@.compact(),
{
    let mut out: String = "{\"boot_id\":".to_owned();
    out.append(&decimal_of(state.boot_id));
    out.append(",\"counter\":");
    out.append(&decimal_of(state.counter));
    out.append("}");
    out
}

/// The whole view of a state.
pub fn state_json(state: &State) -> (out: String)
    ensures
        out@ == state@.full(),
{
    let mut out: String = "{\"boot_id\":".to_owned();
    out.append(&decimal_of(state.boot_id));
    out.append(",\"counter\":");
    out.append(&decimal_of(state.counter));
    out.append(",\"requests\":");
    out.append(&decimal_of(state.requests));
    out.append(",\"recent\":[");
    out.append(&list(&state.log));
    out.append("]}");
    out
}

/// Appends to a log and drops what is too old.
fn push_log(log: &mut Vec<String>, line: String)
    ensures
        text::views(final(log)@) == newest(text::views(old(log)@).push(line@)),
{
    log.push(line);
    proof {
        assert(text::views(log@) =~= text::views(old(log)@).push(line@));
    }
    let ghost pushed = log@;
    let ghost whole = text::views(pushed);
    let ghost mut dropped: int = 0;
    while log.len() > LOG_ENTRIES
        invariant
            0 <= dropped <= whole.len(),
            whole == text::views(pushed),
            log@ == pushed.skip(dropped),
            dropped > 0 ==> log@.len() >= LOG_ENTRIES,
        decreases log@.len(),
    {
        let _oldest = log.remove(0);
        proof {
            assert(log@ =~= pushed.skip(dropped + 1));
            dropped = dropped + 1;
        }
    }
    proof {
        assert(text::views(log@) =~= whole.skip(dropped));
        assert(whole.skip(0) =~= whole);
    }
}

impl State {
    /// The state of a process that has just started with the stamp `boot_id`.
    pub fn new(boot_id: u64) -> (s: State)
        ensures
            s@ == (Memory { counter: 0, requests: 0, boot_id, log: Seq::empty() }),
    {
        let s = State { counter: 0, requests: 0, boot_id, log: Vec::new() };
        proof {
            assert(text::views(s.log@) =~= Seq::<Seq<char>>::empty());
        }
        s
    }

    /// Bumps the counter and logs it under `label`.
    fn bump(&mut self, label: &str)
        ensures
            final(self)@ == (Memory {
                counter: successor(old(self)@.counter),
                log: newest(old(self)@.log.push(entry(label@, successor(old(self)@.counter)))),
                ..old(self)@
            }),
    {
        self.counter = next(self.counter);
        let mut line: String = label.to_owned();
        line.append(" -> ");
        line.append(&decimal_of(self.counter));
        push_log(&mut self.log, line);
    }
}

/// The number after `n`, zero after the last one.
fn next(n: u64) -> (m: u64)
    ensures
        m == successor(n),
{
    if n == u64::MAX {
        0
    } else {
        n + 1
    }
}

/// Handles a request: bumps the counter, or reports the state.
pub fn handle(state: &mut State, method: &str, path: &str) -> (r: (u16, String))
    ensures
        final(state)@ == old(state)@.after(method@, path@),
        final(state)@.answers(method@, path@, (r.0, r.1@)),
{
    state.requests = next(state.requests);
    let parts = split_on(path, '?');
    let route = &parts[0];
    proof {
        assert(text::views(parts@)[0] == parts@[0]@);
        reveal_strlit("POST");
        reveal_strlit("GET");
        assert("POST"@[0] != "GET"@[0]);
        reveal_strlit("/inc");
        reveal_strlit("/busy");
        assert("/inc"@[1] != "/busy"@[1]);
    }
    let post: bool = same_text(method, "POST");
    if post && same_text(route, "/inc") {
        state.bump("inc");
        (200, compact_json(state))
    } else if post && same_text(route, "/busy") {
        state.bump("busy");
        (200, compact_json(state))
    } else if same_text(method, "GET") && (same_text(route, "/state") || same_text(route, "/")) {
        (200, state_json(state))
    } else {
        (404, "{\"error\":\"not found\"}".to_owned())
    }
}

// ---------------------------------------------------------------------------
// Stalls
// ---------------------------------------------------------------------------

/// `n` brought to between one second and the longest stall.
pub open spec fn clamped(n: nat) -> nat {
    if n < 1 {
        1
    } else if n > MAX_STALL_SECS {
        MAX_STALL_SECS as nat
    } else {
        n
    }
}

/// The stall that a part of a query asks for.
pub open spec fn stall_in(part: Seq<char>) -> Option<nat> {
    if text::starts_with(part, "secs="@) {
        match text::parse_unsigned(part.skip("secs="@.len() as int), 10, u64::MAX as nat) {
            Some(n) => Some(clamped(n)),
            None => None,
        }
    } else {
        None
    }
}

/// The stall that the first part to ask for one asks for.
pub open spec fn first_stall(parts: Seq<Seq<char>>) -> Option<nat>
    decreases parts.len(),
{
    if parts.len() == 0 {
        None
    } else if stall_in(parts[0]) is Some {
        stall_in(parts[0])
    } else {
        first_stall(parts.skip(1))
    }
}

/// The stall that a path asks for: its query is what stands between its first two question marks.
pub open spec fn stall(path: Seq<char>) -> Option<nat> {
    let parts = text::split(path, '?');
    if parts.len() < 2 {
        None
    } else {
        first_stall(text::split(parts[1], '&'))
    }
}

/// The stall that a part of a query asks for.
fn part_stall(part: &str) -> (out: Option<u64>)
    ensures
        match out {
            Some(n) => stall_in(part@) == Some(n as nat),
            None => stall_in(part@) is None,
        },
{
    if !begins_with(part, "secs=") {
        return None;
    }
    let chars = chars_of(part);
    proof {
        reveal_strlit("secs=");
        assert(part@.subrange(5, part@.len() as int) =~= part@.skip("secs="@.len() as int));
    }
    match parse_number(&string_of(&chars, 5, chars.len()), 10, u64::MAX) {
        Some(n) => if n < 1 {
            Some(1)
        } else if n > MAX_STALL_SECS {
            Some(MAX_STALL_SECS)
        } else {
            Some(n)
        },
        None => None,
    }
}

/// The seconds that a path asks to stall for, brought to between one and the most allowed.
pub fn busy_secs(path: &str) -> (out: Option<u64>)
    ensures
        match out {
            Some(n) => stall(path@) == Some(n as nat),
            None => stall(path@) is None,
        },
{
    let parts = split_on(path, '?');
    if parts.len() < 2 {
        return None;
    }
    proof {
        assert(text::views(parts@)[1] == parts@[1]@);
    }
    let asked = split_on(&parts[1], '&');
    let ghost all = text::views(asked@);
    let mut i: usize = 0;
    proof {
        assert(all.skip(0) =~= all);
    }
    while i < asked.len()
        invariant
            i <= asked@.len(),
            all == text::views(asked@),
            stall(path@) == first_stall(all.skip(i as int)),
        decreases asked@.len() - i,
    {
        proof {
            assert(all.skip(i as int)[0] == asked@[i as int]@);
            assert(all.skip(i as int).skip(1) =~= all.skip(i + 1));
        }
        let found = part_stall(&asked[i]);
        if found.is_some() {
            return found;
        }
        i = i + 1;
    }
    None
}

// ---------------------------------------------------------------------------
// Over HTTP
// ---------------------------------------------------------------------------

/// The first line of a text, without its line end, which is a line feed and a carriage return before
/// it, if there is one.
pub open spec fn first_line(s: Seq<char>) -> Seq<char> {
    let lines = text::split(s, '\n');
    if lines.len() > 1 && lines[0].len() > 0 && lines[0].last() == '\r' {
        lines[0].drop_last()
    } else {
        lines[0]
    }
}

/// The first line of what was received, whatever bytes that is.
pub fn request_line(raw: &[u8]) -> (line: String)
    ensures
        line@ == first_line(api::lossy_utf8(raw@)),
{
    let received = lossy_text(raw);
    let lines = split_on(&received, '\n');
    proof {
        assert(text::views(lines@)[0] == lines@[0]@);
    }
    if lines.len() > 1 {
        let chars = chars_of(&lines[0]);
        let n: usize = chars.len();
        if n > 0 && chars[n - 1] == '\r' {
            proof {
                assert(chars@.subrange(0, n - 1) =~= lines@[0]@.drop_last());
            }
            return string_of(&chars, 0, n - 1);
        }
    }
    lines[0].clone()
}

/// The method and the path of an HTTP request line: its first two words.
pub open spec fn request(line: Seq<char>) -> Option<(Seq<char>, Seq<char>)> {
    let words = text::words(line);
    if words.len() < 2 {
        None
    } else {
        Some((words[0], words[1]))
    }
}

/// Reads the method and the path of an HTTP request line.
pub fn parse_request_line(line: &str) -> (out: Option<(String, String)>)
    ensures
        match out {
            Some((method, path)) => request(line@) == Some((method@, path@)),
            None => request(line@) is None,
        },
{
    let words = words_of(line);
    if words.len() < 2 {
        return None;
    }
    proof {
        assert(text::views(words@)[0] == words@[0]@);
        assert(text::views(words@)[1] == words@[1]@);
    }
    Some((words[0].clone(), words[1].clone()))
}

/// How long the server stalls before it answers a request line.
pub open spec fn stall_before(line: Seq<char>) -> Option<nat> {
    match request(line) {
        Some((method, path)) => if method == "POST"@ && routed(path) == "/busy"@ {
            stall(path)
        } else {
            None
        },
        None => None,
    }
}

/// How many seconds the server stalls before it answers a request line.
pub fn stall_secs(line: &str) -> (out: Option<u64>)
    ensures
        match out {
            Some(n) => stall_before(line@) == Some(n as nat),
            None => stall_before(line@) is None,
        },
{
    let (method, path) = match parse_request_line(line) {
        Some(r) => r,
        None => {
            return None;
        },
    };
    let parts = split_on(&path, '?');
    proof {
        assert(text::views(parts@)[0] == parts@[0]@);
    }
    if same_text(&method, "POST") && same_text(&parts[0], "/busy") {
        busy_secs(&path)
    } else {
        None
    }
}

/// Answers a request line.
pub fn answer(state: &mut State, line: &str) -> (r: (u16, String))
    ensures
        match request(line@) {
            Some((method, path)) => {
                &&& final(state)@ == old(state)@.after(method, path)
                &&& final(state)@.answers(method, path, (r.0, r.1@))
            },
            None => {
                &&& final(state)@ == old(state)@
                &&& r.0 == 400
                &&& r.1@ == "{\"error\":\"bad request\"}"@
            },
        },
{
    match parse_request_line(line) {
        Some((method, path)) => handle(state, &method, &path),
        None => (400, "{\"error\":\"bad request\"}".to_owned()),
    }
}

/// The words for a status.
pub open spec fn reason(status: u16) -> Seq<char> {
    if status == 200 {
        "OK"@
    } else if status == 400 {
        "Bad Request"@
    } else if status == 404 {
        "Not Found"@
    } else {
        "Error"@
    }
}

/// An answer as an HTTP response, its length given in bytes.
pub fn response(status: u16, body: &str) -> (out: String)
    ensures
        out@ == "HTTP/1.1 "@ + text::decimal(status as nat) + " "@ + reason(status)
            + "\r\nContent-Type: application/json\r\nContent-Length: "@ + text::decimal(
            vstd::utf8::encode_utf8(body@).len(),
        ) + "\r\nConnection: close\r\n\r\n"@ + body@,
{
    let mut out: String = "HTTP/1.1 ".to_owned();
    out.append(&decimal_of(status as u64));
    out.append(" ");
    out.append(
        if status == 200 {
            "OK"
        } else if status == 400 {
            "Bad Request"
        } else if status == 404 {
            "Not Found"
        } else {
            "Error"
        },
    );
    out.append("\r\nContent-Type: application/json\r\nContent-Length: ");
    out.append(&decimal_of(body.as_bytes().len() as u64));
    out.append("\r\nConnection: close\r\n\r\n");
    out.append(body);
    out
}

// ---------------------------------------------------------------------------
// Laws
// ---------------------------------------------------------------------------

/// How many of the requests bump the counter.
pub open spec fn bumps(requests: Seq<(Seq<char>, Seq<char>)>) -> nat
    decreases requests.len(),
{
    if requests.len() == 0 {
        0
    } else if bump(requests.last().0, requests.last().1) is Some {
        bumps(requests.drop_last()) + 1
    } else {
        bumps(requests.drop_last())
    }
}

/// A number that starts over after its last value goes on by one.
proof fn lemma_successor(start: u64, n: nat, now: u64)
    requires
        now as int == (start + n) % (u64::MAX + 1),
    ensures
        successor(now) as int == (start + n + 1) % (u64::MAX + 1),
{
    let total: int = start + n;
    let size: int = u64::MAX + 1;
    vstd::arithmetic::div_mod::lemma_fundamental_div_mod(total, size);
    if now == u64::MAX {
        assert(size * (total / size) + size == size * (total / size + 1)) by (nonlinear_arith);
        vstd::arithmetic::div_mod::lemma_fundamental_div_mod_converse(
            total + 1,
            size,
            total / size + 1,
            0,
        );
    } else {
        vstd::arithmetic::div_mod::lemma_fundamental_div_mod_converse(
            total + 1,
            size,
            total / size,
            now + 1,
        );
    }
}

/// Whatever requests come in, the stamp stays, the counter climbs by one for every bump, the tally
/// climbs by one for every request, and a log that was bounded stays so. The two numbers start over
/// after their last value.
pub proof fn law_memory_carries_on(m: Memory, requests: Seq<(Seq<char>, Seq<char>)>)
    ensures
        m.after_all(requests).boot_id == m.boot_id,
        m.after_all(requests).counter as int == (m.counter + bumps(requests)) % (u64::MAX + 1),
        m.after_all(requests).requests as int == (m.requests + requests.len()) % (u64::MAX + 1),
        m.log.len() <= LOG_ENTRIES ==> m.after_all(requests).log.len() <= LOG_ENTRIES,
    decreases requests.len(),
{
    if requests.len() > 0 {
        let earlier = requests.drop_last();
        let before = m.after_all(earlier);
        law_memory_carries_on(m, earlier);
        lemma_successor(m.requests, earlier.len(), before.requests);
        if bump(requests.last().0, requests.last().1) is Some {
            lemma_successor(m.counter, bumps(earlier), before.counter);
        }
    } else {
        vstd::arithmetic::div_mod::lemma_small_mod(m.counter as nat, (u64::MAX + 1) as nat);
        vstd::arithmetic::div_mod::lemma_small_mod(m.requests as nat, (u64::MAX + 1) as nat);
    }
}

/// What a report of the state asks for leaves the counter and the log as they are.
pub proof fn law_reading_changes_no_count(m: Memory, method: Seq<char>, path: Seq<char>)
    requires
        reads(method, path),
    ensures
        m.after(method, path).counter == m.counter,
        m.after(method, path).log == m.log,
{
    reveal_strlit("POST");
    reveal_strlit("GET");
    assert("POST"@[0] != "GET"@[0]);
}

/// What comes behind a question mark does not decide where a request goes.
pub proof fn law_query_does_not_route(path: Seq<char>, query: Seq<char>)
    requires
        !path.contains('?'),
    ensures
        routed(path.push('?') + query) == path,
        routed(path) == path,
{
    text::law_first_part_comes_off(path, '?', query);
    text::law_text_without_separator_is_one_part(path, '?');
}

/// A request that counts up adds one to the count, keeps the newest entries, the last of which says
/// what the count has come to, and is answered with that count. Every request is itself counted.
pub proof fn law_bump_counts_up(m: Memory, method: Seq<char>, path: Seq<char>, r: (u16, Seq<char>))
    requires
        bump(method, path) is Some,
        m.counter < u64::MAX,
        m.requests < u64::MAX,
        m.after(method, path).answers(method, path, r),
    ensures
        m.after(method, path).counter == m.counter + 1,
        m.after(method, path).requests == m.requests + 1,
        m.after(method, path).boot_id == m.boot_id,
        m.after(method, path).log.len() > 0,
        m.after(method, path).log.last() == bump(method, path)->0 + " -> "@ + text::decimal(
            (m.counter + 1) as nat,
        ),
        m.log.len() < LOG_ENTRIES ==> m.after(method, path).log.drop_last() == m.log,
        m.log.len() == LOG_ENTRIES ==> m.after(method, path).log.drop_last() == m.log.skip(1),
        method == "POST"@,
        r.0 == 200,
        text::has_part(r.1, "\"counter\":"@ + text::decimal((m.counter + 1) as nat)),
        text::starts_with(r.1, "{\"boot_id\":"@ + text::decimal(m.boot_id as nat)),
{
    let next = m.after(method, path);
    let pushed = m.log.push(entry(bump(method, path)->0, (m.counter + 1) as u64));
    assert(next.log == newest(pushed));
    if m.log.len() < LOG_ENTRIES {
        assert(next.log.drop_last() =~= m.log);
    } else if m.log.len() == LOG_ENTRIES {
        assert(next.log.drop_last() =~= m.log.skip(1));
    }
    let count = text::decimal(next.counter as nat);
    let boot = "{\"boot_id\":"@ + text::decimal(m.boot_id as nat);
    reveal_strlit(",\"counter\":");
    reveal_strlit("\"counter\":");
    let comma = seq![','];
    assert(",\"counter\":"@ =~= comma + "\"counter\":"@);
    let part = "\"counter\":"@ + count;
    assert(next.compact() =~= (boot + comma) + part + "}"@);
    text::law_parts_are_found(boot + comma, part, "}"@);
    assert(next.compact() =~= boot + (comma + part + "}"@));
    text::law_parts_are_found(Seq::empty(), boot, comma + part + "}"@);
}

/// A request that does not count up changes nothing but the number of requests.
pub proof fn law_other_requests_leave_the_count(m: Memory, method: Seq<char>, path: Seq<char>)
    requires
        bump(method, path) is None,
        m.requests < u64::MAX,
    ensures
        m.after(method, path) == (Memory { requests: (m.requests + 1) as u64, ..m }),
{
}

/// Only what is posted counts up, and only what is got is read; what is neither is not found.
pub proof fn law_requests_are_told_apart(m: Memory, method: Seq<char>, path: Seq<char>, r: (u16, Seq<char>))
    requires
        m.answers(method, path, r),
    ensures
        bump(method, path) is Some ==> !reads(method, path),
        method != "POST"@ && method != "GET"@ ==> r.0 == 404,
        r.0 == 200 <==> bump(method, path) is Some || reads(method, path),
        r.0 == 200 || r.0 == 404,
        bump("POST"@, "/inc"@) == Some("inc"@) && bump("POST"@, "/busy"@) == Some("busy"@),
        reads("GET"@, "/state"@) && reads("GET"@, "/"@),
{
    reveal_strlit("POST");
    reveal_strlit("GET");
    reveal_strlit("/inc");
    reveal_strlit("/busy");
    reveal_strlit("/state");
    reveal_strlit("/");
    assert("POST"@.len() != "GET"@.len());
    assert("/inc"@.len() != "/busy"@.len());
    text::law_text_without_separator_is_one_part("/inc"@, '?');
    text::law_text_without_separator_is_one_part("/busy"@, '?');
    text::law_text_without_separator_is_one_part("/state"@, '?');
    text::law_text_without_separator_is_one_part("/"@, '?');
}

/// A stall lasts as long as was asked for, but at least a second and no longer than the most.
pub proof fn law_stall_is_as_asked(path: Seq<char>, secs: nat)
    requires
        !path.contains('?'),
        secs <= u64::MAX,
    ensures
        stall(path.push('?') + ("secs="@ + text::decimal(secs))) == Some(
            if secs < 1 {
                1nat
            } else if secs <= MAX_STALL_SECS {
                secs
            } else {
                MAX_STALL_SECS as nat
            },
        ),
        stall(path) is None,
{
    let n = text::decimal(secs);
    let part = "secs="@ + n;
    reveal_strlit("secs=");
    text::law_decimal_is_digits(secs);
    assert forall|i: int| 0 <= i < part.len() implies part[i] != '?' && part[i] != '&' by {
        if i >= 5 {
            assert(part[i] == n[i - 5]);
            assert('0' <= n[i - 5] <= '9');
        }
    }
    text::law_first_part_comes_off(path, '?', part);
    text::law_text_without_separator_is_one_part(path, '?');
    text::law_text_without_separator_is_one_part(part, '?');
    text::law_text_without_separator_is_one_part(part, '&');
    text::law_decimal_is_read_back(secs, u64::MAX as nat);
    assert(part.skip(5) =~= n);
    assert(part.take(5) =~= "secs="@);
}

/// The first line of a request ends at its line end, whichever of the two kinds that is.
pub proof fn law_request_line_ends_at_its_end(line: Seq<char>, rest: Seq<char>)
    requires
        !line.contains('\n'),
        line.len() > 0 ==> line.last() != '\r',
    ensures
        first_line(line.push('\n') + rest) == line,
        first_line(line.push('\r').push('\n') + rest) == line,
        first_line(line) == line,
{
    text::law_first_part_comes_off(line, '\n', rest);
    text::law_text_without_separator_is_one_part(line, '\n');
    let returned = line.push('\r');
    assert(!returned.contains('\n')) by {
        assert forall|i: int| 0 <= i < returned.len() implies returned[i] != '\n' by {
            if i < line.len() {
                assert(line.contains(line[i]));
            }
        }
    }
    text::law_first_part_comes_off(returned, '\n', rest);
    text::lemma_split_where_nonempty(rest, text::just('\n'));
    assert(returned.drop_last() =~= line);
}

/// A request line says the method first and then the path.
pub proof fn law_request_line_is_method_and_path(method: Seq<char>, path: Seq<char>, rest: Seq<char>)
    requires
        method.len() > 0,
        path.len() > 0,
        forall|i: int| 0 <= i < method.len() ==> !text::is_space(#[trigger] method[i]),
        forall|i: int| 0 <= i < path.len() ==> !text::is_space(#[trigger] path[i]),
    ensures
        request(method.push(' ') + (path.push(' ') + rest)) == Some((method, path)),
        request(method) is None,
{
    text::law_words_come_apart(method, path.push(' ') + rest);
    text::law_words_come_apart(path, rest);
    text::law_words_come_apart(method, rest);
}

/// The whole state is told with every number under its own name.
pub proof fn law_state_is_told_in_full(m: Memory)
    ensures
        text::starts_with(
            m.full(),
            "{\"boot_id\":"@ + text::decimal(m.boot_id as nat) + ",\"counter\":"@ + text::decimal(
                m.counter as nat,
            ) + ",\"requests\":"@ + text::decimal(m.requests as nat),
        ),
        text::ends_with(m.full(), ",\"recent\":["@ + listed(m.log) + "]}"@),
{
    let a = "{\"boot_id\":"@ + text::decimal(m.boot_id as nat) + ",\"counter\":"@ + text::decimal(
        m.counter as nat,
    ) + ",\"requests\":"@ + text::decimal(m.requests as nat);
    let b = ",\"recent\":["@ + listed(m.log) + "]}"@;
    lemma_taken_together(a, ",\"recent\":["@, listed(m.log), "]}"@);
    text::law_parts_are_found(a, b, Seq::empty());
    text::law_parts_are_found(Seq::empty(), a, b);
}

/// What follows a text can be taken together.
proof fn lemma_taken_together(before: Seq<char>, a: Seq<char>, b: Seq<char>, c: Seq<char>)
    ensures
        before + a + b + c == before + (a + b + c),
{
    assert(before + a + b + c =~= before + (a + b + c));
}

/// What a request is answered with says in words what its number says.
pub proof fn law_reasons_match(m: Memory, method: Seq<char>, path: Seq<char>, r: (u16, Seq<char>))
    requires
        m.answers(method, path, r),
    ensures
        bump(method, path) is Some || reads(method, path) ==> reason(r.0) == "OK"@,
        bump(method, path) is None && !reads(method, path) ==> reason(r.0) == "Not Found"@,
        reason(400) == "Bad Request"@,
{
}

/// A carriage return ends a line only where a line feed follows it.
pub proof fn law_lone_return_stays(line: Seq<char>)
    requires
        !line.contains('\n'),
    ensures
        first_line(line) == line,
{
    text::law_text_without_separator_is_one_part(line, '\n');
}

} // verus!
