//! The daemon TCP port named by `CONVERGIO_URL`.
use crate::numeric::{dec, lemma_dec_digits, lemma_parse_dec, parse_unsigned, parse_unsigned_range};
use crate::text::{line_ranges, lines, range_of, trim, trim_bounds, lemma_find_from, before_char, char_before_exec, char_from_exec, chars_of, find, find_exec, lemma_char_before, lemma_char_from, lemma_find, rsplit_once_char, split_once, sub_vec};
use vstd::prelude::*;

verus! {

/// Default daemon TCP port.
pub const DEFAULT_DAEMON_PORT: u16 = 8420;

/// The port of a `scheme://host:port[/path]` URL: the text after the last
/// `:` of the authority (what follows `//`, up to the first `/`), when it
/// parses as a `u16`; the default port in every other case.
pub open spec fn daemon_port_of(url: Option<Seq<char>>) -> u16 {
    match url {
        None => DEFAULT_DAEMON_PORT,
        Some(u) => {
            let after = match split_once(u, "//"@) {
                Some((_, rest)) => rest,
                None => u,
            };
            let host_port = before_char(after, '/');
            match rsplit_once_char(host_port, ':') {
                Some((_, port)) => match parse_unsigned(port, 0xFFFF) {
                    Some(n) => n as u16,
                    None => DEFAULT_DAEMON_PORT,
                },
                None => DEFAULT_DAEMON_PORT,
            }
        },
    }
}

/// Extracts the daemon port from an optional `CONVERGIO_URL` value,
/// falling back to [`DEFAULT_DAEMON_PORT`] rather than failing on anything
/// that does not look like `scheme://host:port[/path]`.
pub fn parse_daemon_port(url: Option<&str>) -> (port: u16)
    ensures
        url is None ==> port == 8420,
        port == daemon_port_of(
            match url {
                Some(u) => Some(u@),
                None => None,
            },
        ),
{
    let u = match url {
        Some(u) => u,
        None => {
            return DEFAULT_DAEMON_PORT;
        },
    };
    let v = chars_of(u);
    let slashes = chars_of("//");
    let vlen = v.len();
    let start = match find_exec(&v, &slashes, 0) {
        Some(i) => {
            proof {
                lemma_find(v@, slashes@);
                assert(find(v@, slashes@) == Some(i as int));
                assert(crate::text::matches_at(v@, slashes@, i as int));
                assert(i + slashes@.len() <= vlen);
            }
            i + slashes.len()
        },
        None => 0,
    };
    let after = sub_vec(&v, start, v.len());
    proof {
        lemma_find(v@, slashes@);
        match split_once(u@, "//"@) {
            Some((_, rest)) => {
                assert(rest =~= after@);
            },
            None => {
                assert(after@ =~= v@);
            },
        }
    }
    let end = match char_from_exec(&after, '/', 0) {
        Some(j) => {
            proof {
                lemma_char_from(after@, '/', 0);
            }
            j
        },
        None => after.len(),
    };
    let host_port = sub_vec(&after, 0, end);
    proof {
        lemma_char_from(after@, '/', 0);
        assert(host_port@ =~= before_char(after@, '/'));
    }
    match char_before_exec(&host_port, ':', host_port.len()) {
        Some(c) => {
            proof {
                lemma_char_before(host_port@, ':', host_port@.len() as int);
                assert(host_port@.skip(c + 1) =~= host_port@.subrange(c + 1, host_port@.len() as int));
            }
            match parse_unsigned_range(&host_port, c + 1, host_port.len(), 0xFFFF) {
                Some(n) => n as u16,
                None => DEFAULT_DAEMON_PORT,
            }
        },
        None => DEFAULT_DAEMON_PORT,
    }
}

// ---------------------------------------------------------------------
// The PID holding the daemon port
// ---------------------------------------------------------------------

/// `lsof -ti tcp:<port> -sTCP:LISTEN`: the first line of its output,
/// trimmed, as a `u32`.
pub open spec fn lsof_pid(out: Seq<char>) -> Option<nat> {
    let ls = lines(out);
    if ls.len() == 0 {
        None
    } else {
        parse_unsigned(trim(ls[0]), 0xFFFF_FFFF)
    }
}

/// The PID of one `ss -lntpH` line: the digits after the first `pid=`, up
/// to the next `,` (or the end of the line), as a `u32`.
pub open spec fn ss_line_pid(l: Seq<char>) -> Option<nat> {
    match find(l, "pid="@) {
        None => None,
        Some(i) => {
            let rest = l.skip(i + 4);
            let end = match find(rest, ","@) {
                Some(j) => j,
                None => rest.len() as int,
            };
            parse_unsigned(rest.take(end), 0xFFFF_FFFF)
        },
    }
}

/// The first PID found on the lines of `ss -lntpH` output.
pub open spec fn ss_pid(ls: Seq<Seq<char>>) -> Option<nat>
    decreases ls.len(),
{
    if ls.len() == 0 {
        None
    } else {
        match ss_line_pid(ls[0]) {
            Some(p) => Some(p),
            None => ss_pid(ls.drop_first()),
        }
    }
}

/// The listening PID reported by `lsof` (macOS).
pub fn pid_from_lsof(out: &str) -> (r: Option<u32>)
    ensures
        match r {
            Some(p) => lsof_pid(out@) == Some(p as nat),
            None => lsof_pid(out@) is None,
        },
{
    let v = chars_of(out);
    let ranges = line_ranges(&v);
    if ranges.len() == 0 {
        return None;
    }
    let (a, b) = ranges[0];
    let first = sub_vec(&v, a, b);
    let (x, y) = trim_bounds(&first);
    proof {
        assert(first@ == lines(v@)[0]);
    }
    match parse_unsigned_range(&first, x, y, 0xFFFF_FFFF) {
        Some(n) => Some(n as u32),
        None => None,
    }
}

/// The PID of one `ss` line, if it names one.
fn pid_of_ss_line(l: &Vec<char>) -> (r: Option<u32>)
    ensures
        match r {
            Some(p) => ss_line_pid(l@) == Some(p as nat),
            None => ss_line_pid(l@) is None,
        },
{
    let key = chars_of("pid=");
    let comma = chars_of(",");
    proof {
        reveal_strlit("pid=");
    }
    match find_exec(l, &key, 0) {
        None => None,
        Some(i) => {
            proof {
                lemma_find_from(l@, key@, 0);
                assert(crate::text::matches_at(l@, key@, i as int));
                assert(key@ =~= seq!['p', 'i', 'd', '=']);
                assert(key@.len() == 4);
                assert(l@.len() == l.len());
            }
            let rest = sub_vec(l, i + 4, l.len());
            proof {
                assert(rest@ =~= l@.skip(i + 4));
            }
            let end = match find_exec(&rest, &comma, 0) {
                Some(j) => {
                    proof {
                        lemma_find_from(rest@, comma@, 0);
                        assert(crate::text::matches_at(rest@, comma@, j as int));
                    }
                    j
                },
                None => rest.len(),
            };
            proof {
                assert(rest@.subrange(0, end as int) =~= rest@.take(end as int));
            }
            match parse_unsigned_range(&rest, 0, end, 0xFFFF_FFFF) {
                Some(n) => Some(n as u32),
                None => None,
            }
        },
    }
}

/// The first listening PID reported by `ss` (Linux).
pub fn pid_from_ss(out: &str) -> (r: Option<u32>)
    ensures
        match r {
            Some(p) => ss_pid(lines(out@)) == Some(p as nat),
            None => ss_pid(lines(out@)) is None,
        },
{
    let v = chars_of(out);
    let ranges = line_ranges(&v);
    let ghost ls = lines(v@);
    let mut k: usize = 0;
    proof {
        assert(ls.skip(0) =~= ls);
    }
    while k < ranges.len()
        invariant
            k <= ranges@.len(),
            ranges@.len() == ls.len(),
            ls == lines(v@),
            v@ == out@,
            forall|m: int|
                0 <= m < ranges@.len() ==> #[trigger] ranges@[m].0 <= ranges@[m].1 <= v@.len()
                    && range_of(v@, ranges@[m]) == ls[m],
            ss_pid(ls) == ss_pid(ls.skip(k as int)),
        decreases ranges@.len() - k,
    {
        let (a, b) = ranges[k];
        let line = sub_vec(&v, a, b);
        proof {
            assert(range_of(v@, ranges@[k as int]) == ls[k as int]);
            assert(ls.skip(k as int)[0] == line@);
            assert(ls.skip(k as int).drop_first() =~= ls.skip(k + 1));
        }
        match pid_of_ss_line(&line) {
            Some(p) => {
                return Some(p);
            },
            None => {},
        }
        k = k + 1;
    }
    None
}

/// A URL `scheme://host:port[/path]` names its port, for a scheme and a
/// host without `/` and a rest that is empty or a path.
pub proof fn daemon_port_of_url(scheme: Seq<char>, host: Seq<char>, port: u16, rest: Seq<char>)
    requires
        !scheme.contains('/'),
        !host.contains('/'),
        rest.len() == 0 || rest[0] == '/',
    ensures
        daemon_port_of(Some(scheme + "://"@ + host + ":"@ + dec(port as nat) + rest)) == port,
{
    reveal_strlit("://");
    reveal_strlit(":");
    reveal_strlit("//");
    let d = dec(port as nat);
    lemma_dec_digits(port as nat);
    lemma_parse_dec(port as nat, 0xFFFF);
    let u = scheme + "://"@ + host + ":"@ + d + rest;
    let l = scheme.len() as int;
    // The first `//` follows the scheme's colon.
    assert(u.subrange(l + 1, l + 3) =~= "//"@);
    assert forall|k: int| 0 <= k < l + 1 implies !crate::text::matches_at(u, "//"@, k) by {
        if crate::text::matches_at(u, "//"@, k) {
            assert(u.subrange(k, k + 2)[0] == '/');
            if k < l {
                assert(u[k] == scheme[k]);
            } else {
                assert(u[k] == ':');
            }
        }
    }
    crate::text::lemma_find_is(u, "//"@, l + 1);
    let after = u.skip(l + 3);
    assert(after =~= host + ":"@ + d + rest);
    // The authority ends at the first `/`, which opens the path.
    let hp = host + ":"@ + d;
    let m = hp.len() as int;
    assert forall|k: int| 0 <= k < m implies after[k] != '/' by {
        if k < host.len() {
            assert(after[k] == host[k]);
        } else if k == host.len() {
            assert(after[k] == ':');
        } else {
            assert(after[k] == d[k - host.len() - 1]);
            assert(crate::numeric::is_digit(d[k - host.len() - 1]));
        }
    }
    crate::text::lemma_char_from(after, '/', 0);
    if rest.len() > 0 {
        assert(after[m] == '/');
    }
    assert(before_char(after, '/') =~= hp);
    // The port follows the last `:`.
    crate::text::lemma_char_before(hp, ':', m);
    assert(hp[host.len() as int] == ':');
    assert forall|k: int| host.len() < k < m implies hp[k] != ':' by {
        assert(hp[k] == d[k - host.len() - 1]);
        assert(crate::numeric::is_digit(d[k - host.len() - 1]));
    }
    assert(rsplit_once_char(hp, ':') == Some((hp.take(host.len() as int), hp.skip(host.len() as int + 1))));
    assert(hp.skip(host.len() as int + 1) =~= d);
}

} // verus!
