//! Command lines of the relay and the notifier: their arguments, the ingress
//! endpoint, and the TOML strings handed to the agent's config flag.
use vstd::prelude::*;

use crate::text::{owned, str_eq};

verus! {

/// The escape of one character inside a TOML basic string.
pub open spec fn escape_char(c: char) -> Seq<char> {
    if c == '\\' {
        seq!['\\', '\\']
    } else if c == '"' {
        seq!['\\', '"']
    } else if c == '\n' {
        seq!['\\', 'n']
    } else if c == '\r' {
        seq!['\\', 'r']
    } else if c == '\t' {
        seq!['\\', 't']
    } else {
        seq![c]
    }
}

/// `s` with every character escaped.
pub open spec fn escaped(s: Seq<char>) -> Seq<char>
    decreases s.len(),
{
    if s.len() == 0 {
        Seq::empty()
    } else {
        escaped(s.drop_last()) + escape_char(s.last())
    }
}

/// `s` as a quoted TOML basic string.
pub open spec fn toml_string(s: Seq<char>) -> Seq<char> {
    seq!['"'] + escaped(s) + seq!['"']
}

/// The escape of `c`, or nothing when `c` stands for itself.
fn escape_of(c: char) -> (r: &'static str)
    ensures
        r@.len() > 0 ==> r@ == escape_char(c),
        r@.len() == 0 ==> escape_char(c) == seq![c],
{
    proof {
        reveal_strlit("");
        reveal_strlit("\\\\");
        reveal_strlit("\\\"");
        reveal_strlit("\\n");
        reveal_strlit("\\r");
        reveal_strlit("\\t");
    }
    if c == '\\' {
        "\\\\"
    } else if c == '"' {
        "\\\""
    } else if c == '\n' {
        "\\n"
    } else if c == '\r' {
        "\\r"
    } else if c == '\t' {
        "\\t"
    } else {
        ""
    }
}

proof fn lemma_escaped_plain_run(s: Seq<char>, a: int, b: int)
    requires
        0 <= a <= b <= s.len(),
        forall|k: int| a <= k < b ==> escape_char(#[trigger] s[k]) == seq![s[k]],
    ensures
        escaped(s.take(b)) == escaped(s.take(a)) + s.subrange(a, b),
    decreases b - a,
{
    if b > a {
        lemma_escaped_plain_run(s, a, b - 1);
        assert(s.take(b).drop_last() =~= s.take(b - 1));
        assert(s.take(b).last() == s[b - 1]);
        assert(s.subrange(a, b) =~= s.subrange(a, b - 1) + seq![s[b - 1]]);
    } else {
        assert(s.subrange(a, b) =~= Seq::<char>::empty());
    }
}

/// `s` as a quoted TOML basic string, with backslash, quote, newline,
/// carriage return and tab escaped.
pub fn toml_escape(s: &str) -> (r: String)
    ensures
        r@ == toml_string(s@),
{
    let n = s.unicode_len();
    let mut out = String::from_str("\"");
    proof {
        reveal_strlit("\"");
        assert(s@.take(0) =~= Seq::<char>::empty());
    }
    let mut start: usize = 0;
    let mut i: usize = 0;
    while i < n
        invariant
            n == s@.len(),
            0 <= start <= i <= n,
            out@ == seq!['"'] + escaped(s@.take(start as int)),
            forall|k: int| start <= k < i ==> escape_char(#[trigger] s@[k]) == seq![s@[k]],
        decreases n - i,
    {
        let c = s.get_char(i);
        let e = escape_of(c);
        if e.unicode_len() > 0 {
            out.append(s.substring_char(start, i));
            out.append(e);
            proof {
                lemma_escaped_plain_run(s@, start as int, i as int);
                assert(s@.take(i + 1).drop_last() =~= s@.take(i as int));
                assert(s@.take(i + 1).last() == c);
                assert(out@ =~= seq!['"'] + escaped(s@.take(i + 1)));
            }
            start = i + 1;
        }
        i = i + 1;
    }
    out.append(s.substring_char(start, n));
    out.append("\"");
    proof {
        lemma_escaped_plain_run(s@, start as int, n as int);
        assert(s@.take(n as int) =~= s@);
        assert(out@ =~= toml_string(s@));
    }
    out
}

/// The TOML array of `values` as basic strings, comma-separated.
pub open spec fn toml_list(values: Seq<String>) -> Seq<char>
    decreases values.len(),
{
    if values.len() == 0 {
        Seq::empty()
    } else if values.len() == 1 {
        toml_string(values[0]@)
    } else {
        toml_list(values.drop_last()) + seq![','] + toml_string(values.last()@)
    }
}

pub fn toml_array(values: &Vec<String>) -> (r: String)
    ensures
        r@ == seq!['['] + toml_list(values@) + seq![']'],
{
    let mut out = String::from_str("[");
    proof {
        reveal_strlit("[");
        reveal_strlit(",");
        reveal_strlit("]");
    }
    let mut i: usize = 0;
    while i < values.len()
        invariant
            0 <= i <= values@.len(),
            out@ == seq!['['] + toml_list(values@.take(i as int)),
        decreases values@.len() - i,
    {
        let ghost prev = out@;
        if i > 0 {
            out.append(",");
        }
        let e = toml_escape(values[i].as_str());
        out.append(e.as_str());
        proof {
            reveal_strlit(",");
            let t = values@.take(i + 1);
            assert(t.drop_last() =~= values@.take(i as int));
            assert(t.last() == values@[i as int]);
            if i == 0 {
                assert(t.len() == 1);
                assert(t[0] == values@[0]);
                assert(toml_list(values@.take(0)) == Seq::<char>::empty());
                assert(toml_list(t) == toml_string(values@[0]@));
            } else {
                assert(toml_list(t) == toml_list(values@.take(i as int)) + seq![','] + toml_string(values@[i as int]@));
            }
            assert(out@ =~= seq!['['] + toml_list(t));
        }
        i = i + 1;
    }
    out.append("]");
    proof {
        reveal_strlit("]");
        assert(values@.take(values@.len() as int) =~= values@);
        assert(out@ =~= seq!['['] + toml_list(values@) + seq![']']);
    }
    out
}

pub open spec fn is_digit(c: char) -> bool {
    '0' <= c && c <= '9'
}

/// The value of a run of decimal digits.
pub open spec fn digits_value(d: Seq<char>) -> nat
    decreases d.len(),
{
    if d.len() == 0 {
        0
    } else {
        digits_value(d.drop_last()) * 10 + (d.last() as nat - '0' as nat) as nat
    }
}

/// What `str::parse::<u16>` makes of `s`: an optional `+`, then one or more
/// decimal digits whose value fits in 16 bits.
pub open spec fn u16_of(s: Seq<char>) -> Option<u16> {
    match at_most_of(s, u16::MAX as nat) {
        Some(v) => Some(v as u16),
        None => None,
    }
}

pub open spec fn without_plus(s: Seq<char>) -> Seq<char> {
    if s.len() > 0 && s[0] == '+' {
        s.drop_first()
    } else {
        s
    }
}

pub open spec fn all_digits(d: Seq<char>) -> bool {
    forall|k: int| 0 <= k < d.len() ==> is_digit(#[trigger] d[k])
}

proof fn lemma_digits_grow(d: Seq<char>, i: int)
    requires
        0 <= i <= d.len(),
        forall|k: int| 0 <= k < d.len() ==> is_digit(#[trigger] d[k]),
    ensures
        digits_value(d.take(i)) <= digits_value(d),
    decreases d.len() - i,
{
    if i < d.len() {
        lemma_digits_grow(d, i + 1);
        assert(d.take(i + 1).drop_last() =~= d.take(i));
    } else {
        assert(d.take(i) =~= d);
    }
}

/// What `s` reads as: an optional `+`, then one or more decimal digits
/// whose value is at most `max`.
pub open spec fn at_most_of(s: Seq<char>, max: nat) -> Option<nat> {
    let d = without_plus(s);
    if d.len() > 0 && all_digits(d) && digits_value(d) <= max {
        Some(digits_value(d))
    } else {
        None
    }
}

/// Parses a decimal number of at most `max`, as `str::parse` does for an
/// unsigned type whose largest value is `max`.
pub fn parse_at_most(s: &str, max: u32) -> (r: Option<u32>)
    ensures
        match r {
            Some(v) => at_most_of(s@, max as nat) == Some(v as nat),
            None => at_most_of(s@, max as nat) is None,
        },
{
    let n = s.unicode_len();
    let mut i: usize = 0;
    if n > 0 && s.get_char(0) == '+' {
        i = 1;
    }
    let ghost d = without_plus(s@);
    let first = i;
    if first == n {
        return None;
    }
    let mut acc: u64 = 0;
    while i < n
        invariant
            n == s@.len(),
            first <= i <= n,
            first == 0 || first == 1,
            d == s@.skip(first as int),
            d == without_plus(s@),
            forall|k: int| 0 <= k < i - first ==> is_digit(#[trigger] d[k]),
            acc == digits_value(d.take(i - first)),
            acc <= max,
        decreases n - i,
    {
        let c = s.get_char(i);
        proof {
            assert(d[i - first] == c);
            assert(d.take(i - first + 1).drop_last() =~= d.take(i - first));
        }
        if c < '0' || c > '9' {
            proof {
                assert(!is_digit(d[i - first]));
                assert(d.len() == n - first);
                assert(!all_digits(d));
            }
            return None;
        }
        let v = (c as u64) - ('0' as u64);
        assert(acc * 10 + v <= 10 * (u32::MAX as u64) + 9) by (nonlinear_arith)
            requires
                acc <= u32::MAX,
                v <= 9,
        ;
        let next = acc * 10 + v;
        if next > max as u64 {
            proof {
                let t = d.take(i - first + 1);
                assert(t.drop_last() =~= d.take(i - first));
                assert(t.last() == c);
                assert(digits_value(t) == next);
                if all_digits(d) {
                    lemma_digits_grow(d, i - first + 1);
                }
            }
            return None;
        }
        acc = next;
        i = i + 1;
    }
    proof {
        assert(d.take(n - first) =~= d);
    }
    Some(acc as u32)
}

/// Parses a port number as `str::parse::<u16>` does.
pub fn parse_u16(s: &str) -> (r: Option<u16>)
    ensures
        r == u16_of(s@),
{
    match parse_at_most(s, 65535) {
        Some(v) => Some(v as u16),
        None => None,
    }
}

/// Index of the first `:` in `s`, or its length when there is none.
pub open spec fn colon_index(s: Seq<char>) -> int
    decreases s.len(),
{
    if s.len() == 0 {
        0
    } else if s[0] == ':' {
        0
    } else {
        1 + colon_index(s.drop_first())
    }
}

proof fn lemma_colon_index(s: Seq<char>, i: int)
    requires
        0 <= i <= s.len(),
        forall|k: int| 0 <= k < i ==> #[trigger] s[k] != ':',
    ensures
        colon_index(s) == i + colon_index(s.skip(i)),
    decreases i,
{
    if i == 0 {
        assert(s.skip(0) =~= s);
    } else {
        assert(s[0] != ':');
        assert(s.drop_first().skip(i - 1) =~= s.skip(i));
        assert forall|k: int| 0 <= k < i - 1 implies #[trigger] s.drop_first()[k] != ':' by {
            assert(s.drop_first()[k] == s[k + 1]);
        }
        lemma_colon_index(s.drop_first(), i - 1);
    }
}

pub(crate) fn find_colon(s: &str) -> (r: usize)
    ensures
        r == colon_index(s@),
        r <= s@.len(),
{
    let n = s.unicode_len();
    let mut i: usize = 0;
    while i < n && s.get_char(i) != ':'
        invariant
            n == s@.len(),
            0 <= i <= n,
            forall|k: int| 0 <= k < i ==> #[trigger] s@[k] != ':',
        decreases n - i,
    {
        i = i + 1;
    }
    proof {
        lemma_colon_index(s@, i as int);
        if i == n {
            assert(s@.skip(i as int).len() == 0);
        } else {
            assert(s@.skip(i as int)[0] == ':');
        }
    }
    i
}

/// `s` without trailing slashes.
pub open spec fn strip_slashes(s: Seq<char>) -> Seq<char>
    decreases s.len(),
{
    if s.len() > 0 && s.last() == '/' {
        strip_slashes(s.drop_last())
    } else {
        s
    }
}

/// `s` without a leading `http://` or `https://`.
pub open spec fn strip_scheme(s: Seq<char>) -> Seq<char> {
    if crate::relay::has_prefix(s, "http://"@) {
        s.skip(7)
    } else if crate::relay::has_prefix(s, "https://"@) {
        s.skip(8)
    } else {
        s
    }
}

/// The host and port of an ingress endpoint such as `http://127.0.0.1:38888/`:
/// the text before the first colon, and the port after it (up to any
/// further colon), both trimmed.
pub open spec fn endpoint_of(e: Seq<char>) -> Option<(Seq<char>, u16)> {
    let s = strip_slashes(strip_scheme(crate::text::trimmed(e)));
    let c = colon_index(s);
    if c >= s.len() {
        None
    } else {
        let rest = s.skip(c + 1);
        let p = rest.take(colon_index(rest));
        match u16_of(crate::text::trimmed(p)) {
            Some(port) => Some((crate::text::trimmed(s.take(c)), port)),
            None => None,
        }
    }
}

fn without_slashes(s: &str) -> (r: String)
    ensures
        r@ == strip_slashes(s@),
{
    let mut j: usize = s.unicode_len();
    proof {
        assert(s@.take(s@.len() as int) =~= s@);
    }
    while j > 0 && s.get_char(j - 1) == '/'
        invariant
            0 <= j <= s@.len(),
            strip_slashes(s@) == strip_slashes(s@.take(j as int)),
        decreases j,
    {
        proof {
            let t = s@.take(j as int);
            assert(t.drop_last() =~= s@.take(j - 1));
            assert(t.last() == s@[j - 1]);
        }
        j = j - 1;
    }
    proof {
        assert(s@.subrange(0, j as int) =~= s@.take(j as int));
    }
    owned(s.substring_char(0, j))
}

/// Parses an ingress endpoint (see `endpoint_of`).
pub fn parse_endpoint(endpoint: &str) -> (r: Option<(String, u16)>)
    ensures
        match r {
            Some((h, p)) => endpoint_of(endpoint@) == Some((h@, p)),
            None => endpoint_of(endpoint@) is None,
        },
{
    proof {
        reveal_strlit("http://");
        reveal_strlit("https://");
    }
    let t = crate::text::trim(endpoint);
    let n = t.unicode_len();
    let unschemed: &str = if crate::text::starts_with(t.as_str(), "http://") {
        t.as_str().substring_char(7, n)
    } else if crate::text::starts_with(t.as_str(), "https://") {
        t.as_str().substring_char(8, n)
    } else {
        t.as_str()
    };
    proof {
        if n >= 7 {
            assert(t@.subrange(7, n as int) =~= t@.skip(7));
        }
        if n >= 8 {
            assert(t@.subrange(8, n as int) =~= t@.skip(8));
        }
    }
    let s = without_slashes(unschemed);
    let m = s.unicode_len();
    let c = find_colon(s.as_str());
    if c >= m {
        return None;
    }
    let rest = s.as_str().substring_char(c + 1, m);
    proof {
        assert(s@.subrange(c + 1, m as int) =~= s@.skip(c + 1));
    }
    let pc = find_colon(rest);
    let port_text = crate::text::trim(rest.substring_char(0, pc));
    proof {
        assert(rest@.subrange(0, pc as int) =~= rest@.take(pc as int));
    }
    match parse_u16(port_text.as_str()) {
        Some(port) => {
            let host = crate::text::trim(s.as_str().substring_char(0, c));
            proof {
                assert(s@.subrange(0, c as int) =~= s@.take(c as int));
            }
            Some((host, port))
        },
        None => None,
    }
}

/// Default ingress port of the relay.
pub const DEFAULT_VIEWER_PORT: u16 = 38888;

/// The relay's settings.
pub struct RelayArgs {
    pub viewer_host: String,
    pub viewer_port: u16,
    pub project_root: String,
    pub session_id: String,
    pub codex_bin: String,
}

/// Flags seen so far by the argument scan.
pub struct ArgsSeen {
    pub host: Option<Seq<char>>,
    pub port: Option<u16>,
    pub project_root: Option<Seq<char>>,
    pub session_id: Option<Seq<char>>,
    pub codex_bin: Option<Seq<char>>,
}

/// The scan of `argv` from `i`: a known flag followed by a value takes it
/// (a later one wins; a port that does not parse is forgotten); anything
/// else is skipped.
pub open spec fn scan_args(argv: Seq<String>, i: int, st: ArgsSeen) -> ArgsSeen
    decreases argv.len() - i,
{
    if i < 0 || i >= argv.len() {
        st
    } else if i + 1 < argv.len() && argv[i]@ == "--viewer-host"@ {
        scan_args(argv, i + 2, ArgsSeen { host: Some(argv[i + 1]@), ..st })
    } else if i + 1 < argv.len() && argv[i]@ == "--viewer-port"@ {
        scan_args(argv, i + 2, ArgsSeen { port: u16_of(argv[i + 1]@), ..st })
    } else if i + 1 < argv.len() && argv[i]@ == "--project-root"@ {
        scan_args(argv, i + 2, ArgsSeen { project_root: Some(argv[i + 1]@), ..st })
    } else if i + 1 < argv.len() && argv[i]@ == "--session-id"@ {
        scan_args(argv, i + 2, ArgsSeen { session_id: Some(argv[i + 1]@), ..st })
    } else if i + 1 < argv.len() && argv[i]@ == "--codex-bin"@ {
        scan_args(argv, i + 2, ArgsSeen { codex_bin: Some(argv[i + 1]@), ..st })
    } else {
        scan_args(argv, i + 1, st)
    }
}

pub open spec fn nothing_seen() -> ArgsSeen {
    ArgsSeen { host: None, port: None, project_root: None, session_id: None, codex_bin: None }
}

pub open spec fn or_seq(o: Option<Seq<char>>, d: Seq<char>) -> Seq<char> {
    match o {
        Some(s) => s,
        None => d,
    }
}

fn take_value(v: &Option<String>) -> (r: Option<String>)
    ensures
        crate::relay::opt_seq(r) == crate::relay::opt_seq(*v),
{
    match v {
        Some(s) => Some(s.clone()),
        None => None,
    }
}

/// The relay's settings from its command line (`argv[0]` is the program)
/// and the agent path from the environment, if set. The project root and
/// the session id are required; the host, port and agent binary default.
pub fn parse_args(argv: &Vec<String>, env_codex_path: &Option<String>) -> (r: Option<RelayArgs>)
    ensures
        ({
            let st = scan_args(argv@, 1, nothing_seen());
            match r {
                None => st.project_root is None || st.session_id is None,
                Some(a) => {
                    &&& st.project_root == Some(a.project_root@)
                    &&& st.session_id == Some(a.session_id@)
                    &&& a.viewer_host@ == or_seq(st.host, "127.0.0.1"@)
                    &&& a.viewer_port == match st.port {
                        Some(p) => p,
                        None => DEFAULT_VIEWER_PORT,
                    }
                    &&& a.codex_bin@ == or_seq(
                        st.codex_bin,
                        or_seq(crate::relay::opt_seq(*env_codex_path), "codex"@),
                    )
                },
            }
        }),
{
    let mut host: Option<String> = None;
    let mut port: Option<u16> = None;
    let mut project_root: Option<String> = None;
    let mut session_id: Option<String> = None;
    let mut codex_bin: Option<String> = None;
    let n = argv.len();
    let mut i: usize = 1;
    while i < n
        invariant
            n == argv@.len(),
            1 <= i,
            scan_args(argv@, 1, nothing_seen()) == scan_args(
                argv@,
                i as int,
                ArgsSeen {
                    host: crate::relay::opt_seq(host),
                    port,
                    project_root: crate::relay::opt_seq(project_root),
                    session_id: crate::relay::opt_seq(session_id),
                    codex_bin: crate::relay::opt_seq(codex_bin),
                },
            ),
        decreases n - i,
    {
        let a = argv[i].as_str();
        let has_value = i + 1 < n;
        if has_value && str_eq(a, "--viewer-host") {
            host = Some(argv[i + 1].clone());
            i = i + 2;
        } else if has_value && str_eq(a, "--viewer-port") {
            port = parse_u16(argv[i + 1].as_str());
            i = i + 2;
        } else if has_value && str_eq(a, "--project-root") {
            project_root = Some(argv[i + 1].clone());
            i = i + 2;
        } else if has_value && str_eq(a, "--session-id") {
            session_id = Some(argv[i + 1].clone());
            i = i + 2;
        } else if has_value && str_eq(a, "--codex-bin") {
            codex_bin = Some(argv[i + 1].clone());
            i = i + 2;
        } else {
            i = i + 1;
        }
    }
    let project_root = match project_root {
        Some(p) => p,
        None => {
            return None;
        },
    };
    let session_id = match session_id {
        Some(s) => s,
        None => {
            return None;
        },
    };
    proof {
        reveal_strlit("127.0.0.1");
        reveal_strlit("codex");
    }
    let viewer_host = match host {
        Some(h) => h,
        None => String::from_str("127.0.0.1"),
    };
    let codex_bin = match codex_bin {
        Some(b) => b,
        None => match take_value(env_codex_path) {
            Some(b) => b,
            None => String::from_str("codex"),
        },
    };
    let viewer_port = match port {
        Some(p) => p,
        None => DEFAULT_VIEWER_PORT,
    };
    Some(RelayArgs { viewer_host, viewer_port, project_root, session_id, codex_bin })
}

proof fn lemma_decimal_value(n: nat)
    ensures
        crate::events::decimal(n).len() > 0,
        all_digits(crate::events::decimal(n)),
        digits_value(crate::events::decimal(n)) == n,
        crate::events::decimal(n)[0] != '+',
    decreases n,
{
    let d = crate::events::decimal(n);
    if n < 10 {
        assert(d == seq![(n + 48) as char]);
        assert(d.drop_last() =~= Seq::<char>::empty());
        assert(((n + 48) as char) as nat == n + 48);
        assert('0' as nat == 48);
        assert(d.last() == (n + 48) as char);
        assert(digits_value(d) == digits_value(d.drop_last()) * 10 + (d.last() as nat - '0' as nat) as nat);
        assert(digits_value(Seq::<char>::empty()) == 0);
    } else {
        lemma_decimal_value(n / 10);
        let p = crate::events::decimal(n / 10);
        let c = ((n % 10) + 48) as char;
        assert(d == p.push(c));
        assert(d.drop_last() =~= p);
        assert(c as nat == (n % 10) + 48);
        assert(p.len() > 0 && d[0] == p[0]);
        assert forall|k: int| 0 <= k < d.len() implies is_digit(#[trigger] d[k]) by {
            if k < p.len() {
                assert(d[k] == p[k]);
            }
        }
        assert('0' as nat == 48);
        assert(d.last() == c);
        assert(digits_value(d) == digits_value(p) * 10 + (c as nat - '0' as nat) as nat);
        assert((n / 10) * 10 + n % 10 == n) by (nonlinear_arith);
    }
}

/// The relay's command line (without the program) for a session.
pub open spec fn relay_args_of(
    host: Seq<char>,
    port: u16,
    project_root: Seq<char>,
    session_id: Seq<char>,
    agent_bin: Option<Seq<char>>,
) -> Seq<Seq<char>> {
    let base = seq![
        "--viewer-host"@,
        host,
        "--viewer-port"@,
        crate::events::decimal(port as nat),
        "--project-root"@,
        project_root,
        "--session-id"@,
        session_id,
    ];
    match agent_bin {
        Some(b) => base + seq!["--codex-bin"@, b],
        None => base,
    }
}

/// The arguments with which the supervisor starts a relay for a session.
pub fn relay_args(
    host: &str,
    port: u16,
    project_root: &str,
    session_id: &str,
    agent_bin: &Option<String>,
) -> (r: Vec<String>)
    ensures
        crate::runner::views(r@) == relay_args_of(
            host@,
            port,
            project_root@,
            session_id@,
            crate::relay::opt_seq(*agent_bin),
        ),
{
    let mut port_text = String::new();
    crate::events::push_decimal(&mut port_text, port as u64);
    let mut v: Vec<String> = Vec::new();
    v.push(String::from_str("--viewer-host"));
    v.push(owned(host));
    v.push(String::from_str("--viewer-port"));
    v.push(port_text);
    v.push(String::from_str("--project-root"));
    v.push(owned(project_root));
    v.push(String::from_str("--session-id"));
    v.push(owned(session_id));
    match agent_bin {
        Some(b) => {
            v.push(String::from_str("--codex-bin"));
            v.push(b.clone());
        },
        None => {},
    }
    proof {
        assert(port_text@ =~= crate::events::decimal(port as nat));
        assert(crate::runner::views(v@) =~= relay_args_of(
            host@,
            port,
            project_root@,
            session_id@,
            crate::relay::opt_seq(*agent_bin),
        ));
    }
    v
}

/// The relay reads back what the supervisor passed it: the arguments built
/// by `relay_args`, after the program name, scan to the same host, port,
/// project root, session id and agent binary.
pub proof fn lemma_relay_args_round_trip(
    argv: Seq<String>,
    host: Seq<char>,
    port: u16,
    project_root: Seq<char>,
    session_id: Seq<char>,
    agent_bin: Option<Seq<char>>,
)
    requires
        argv.len() >= 1,
        crate::runner::views(argv.drop_first()) == relay_args_of(host, port, project_root, session_id, agent_bin),
    ensures
        scan_args(argv, 1, nothing_seen()) == (ArgsSeen {
            host: Some(host),
            port: Some(port),
            project_root: Some(project_root),
            session_id: Some(session_id),
            codex_bin: agent_bin,
        }),
{
    reveal_strlit("--viewer-host");
    reveal_strlit("--viewer-port");
    reveal_strlit("--project-root");
    reveal_strlit("--session-id");
    reveal_strlit("--codex-bin");
    let a = relay_args_of(host, port, project_root, session_id, agent_bin);
    assert(crate::runner::views(argv.drop_first()).len() == argv.len() - 1);
    assert forall|k: int| 0 <= k < argv.len() - 1 implies argv[k + 1]@ == #[trigger] a[k] by {
        assert(crate::runner::views(argv.drop_first())[k] == argv.drop_first()[k]@);
        assert(argv.drop_first()[k] == argv[k + 1]);
    }
    assert(argv[1]@ == a[0]);
    assert(argv[2]@ == a[1]);
    assert(argv[3]@ == a[2]);
    assert(argv[4]@ == a[3]);
    assert(argv[5]@ == a[4]);
    assert(argv[6]@ == a[5]);
    assert(argv[7]@ == a[6]);
    assert(argv[8]@ == a[7]);
    lemma_decimal_value(port as nat);
    let d = crate::events::decimal(port as nat);
    assert(without_plus(d) == d);
    assert(u16_of(d) == Some(port));
    assert("--viewer-port"@ != "--viewer-host"@) by {
        assert("--viewer-port"@[9] != "--viewer-host"@[9]);
    }
    assert("--project-root"@ != "--viewer-host"@ && "--project-root"@ != "--viewer-port"@) by {
        assert("--project-root"@.len() != "--viewer-host"@.len());
    }
    assert("--session-id"@.len() != "--viewer-host"@.len());
    assert("--session-id"@.len() != "--project-root"@.len());
    assert("--session-id"@ != "--viewer-port"@);
    assert("--codex-bin"@.len() != "--viewer-host"@.len());
    assert("--codex-bin"@.len() != "--project-root"@.len());
    assert("--codex-bin"@.len() != "--session-id"@.len());
    assert("--codex-bin"@ != "--viewer-port"@);
    let s1 = ArgsSeen { host: Some(host), ..nothing_seen() };
    let s2 = ArgsSeen { port: Some(port), ..s1 };
    let s3 = ArgsSeen { project_root: Some(project_root), ..s2 };
    let s4 = ArgsSeen { session_id: Some(session_id), ..s3 };
    match agent_bin {
        Some(b) => {
            assert(argv.len() == 11);
            assert(argv[9]@ == a[8]);
            assert(argv[10]@ == a[9]);
            assert(scan_args(argv, 11, ArgsSeen { codex_bin: Some(b), ..s4 }) == (ArgsSeen {
                codex_bin: Some(b),
                ..s4
            }));
            assert(scan_args(argv, 9, s4) == scan_args(argv, 11, ArgsSeen { codex_bin: Some(b), ..s4 }));
        },
        None => {
            assert(argv.len() == 9);
            assert(scan_args(argv, 9, s4) == s4);
        },
    }
    assert(scan_args(argv, 7, s3) == scan_args(argv, 9, s4));
    assert(scan_args(argv, 5, s2) == scan_args(argv, 7, s3));
    assert(scan_args(argv, 3, s1) == scan_args(argv, 5, s2));
    assert(scan_args(argv, 1, nothing_seen()) == scan_args(argv, 3, s1));
}

} // verus!
