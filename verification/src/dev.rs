//! Decisions of `cargo sovax dev` and `cargo sovax db`: restart mode, instance
//! ids, readiness answers of a restarted process, and the app CLI to run.

use vstd::prelude::*;
use vstd::string::*;
use crate::human::{parse_usize, spec_parse_usize};
use crate::util::{since_unix_epoch, system_now};
use crate::text::{
    ascii_lower, char_ascii_lower, char_is_ws, decimal, ends_with_char, is_prefix, is_ws,
    lemma_split_on_nonempty, push_char, push_decimal, split_char, split_on, str_eq,
    str_starts_with, strings_view, trim, trim_ws,
};

verus! {

/// Options of `cargo sovax dev`.
#[derive(Debug)]
pub struct DevArgs {
    pub package: Option<String>,
    pub manifest_path: Option<String>,
    /// Do not start the frontend even if one is detected.
    pub no_frontend: bool,
    /// Overlap restart: start the new process before stopping the old one.
    pub graceful: bool,
    /// Stop the old process, then start the new one.
    pub no_graceful: bool,
    /// Seconds to wait after SIGTERM before SIGKILL.
    pub drain_timeout: u64,
}

impl DevArgs {
    /// Overlap restarts: off with `--no-graceful`, on with `--graceful`, else on
    /// exactly on Unix targets.
    pub fn graceful_enabled(&self, unix: bool) -> (r: bool)
        ensures
            r == if self.no_graceful {
                false
            } else if self.graceful {
                true
            } else {
                unix
            },
    {
        if self.no_graceful {
            return false;
        }
        if self.graceful {
            return true;
        }
        unix
    }
}

/// Whole nanoseconds of a duration: wraps `Duration::as_nanos`.
///
/// Trusted, and nothing is claimed of the value.
#[verifier::external_body]
fn whole_nanos(d: std::time::Duration) -> u128 {
    d.as_nanos()
}

/// The instance id of a process started at `nanos`: `dev-<nanos>`.
pub fn instance_id_for(nanos: u128) -> (r: String)
    ensures
        r@ == "dev-"@ + decimal(nanos as nat),
{
    let mut out = String::from_str("dev-");
    push_decimal(&mut out, nanos);
    out
}

/// A fresh instance id from the clock.
pub fn new_instance_id() -> (r: String)
    ensures
        exists|n: u128| r@ == "dev-"@ + #[trigger] decimal(n as nat),
{
    let n = match since_unix_epoch(system_now()) {
        Some(d) => whole_nanos(d),
        None => 0,
    };
    instance_id_for(n)
}

/// `str::lines`: pieces between `\n`, without a final empty piece and with a
/// trailing `\r` removed from each.
pub open spec fn text_lines(t: Seq<char>) -> Seq<Seq<char>> {
    let pieces = if t.len() == 0 {
        Seq::empty()
    } else if t.last() == '\n' {
        split_on(t, '\n').drop_last()
    } else {
        split_on(t, '\n')
    };
    pieces.map_values(|l: Seq<char>| if ends_with_char(l, '\r') { l.drop_last() } else { l })
}

/// Words of `s` seen so far and the word being read (`str::split_whitespace`).
pub open spec fn words_acc(s: Seq<char>) -> (Seq<Seq<char>>, Seq<char>)
    decreases s.len(),
{
    if s.len() == 0 {
        (Seq::empty(), Seq::empty())
    } else {
        let (done, cur) = words_acc(s.drop_last());
        if is_ws(s.last()) {
            if cur.len() > 0 {
                (done.push(cur), Seq::empty())
            } else {
                (done, cur)
            }
        } else {
            (done, cur.push(s.last()))
        }
    }
}

/// The whitespace-separated words of `s`.
pub open spec fn words(s: Seq<char>) -> Seq<Seq<char>> {
    let (done, cur) = words_acc(s);
    if cur.len() > 0 {
        done.push(cur)
    } else {
        done
    }
}

/// The words of a line.
fn split_words(s: &str) -> (r: Vec<String>)
    ensures
        strings_view(r@) == words(s@),
{
    let n = s.unicode_len();
    let mut done: Vec<String> = Vec::new();
    let mut cur = String::new();
    let mut i: usize = 0;
    assert(s@.take(0) =~= Seq::<char>::empty());
    assert(strings_view(done@) =~= Seq::<Seq<char>>::empty());
    while i < n
        invariant
            n == s@.len(),
            i <= n,
            strings_view(done@) == words_acc(s@.take(i as int)).0,
            cur@ == words_acc(s@.take(i as int)).1,
        decreases n - i,
    {
        let c = s.get_char(i);
        assert(s@.take(i + 1).drop_last() =~= s@.take(i as int));
        assert(s@.take(i + 1).last() == c);
        if char_is_ws(c) {
            if cur.unicode_len() > 0 {
                let w = cur;
                let ghost before = done@;
                let ghost wv = w@;
                done.push(w);
                assert(strings_view(done@) =~= strings_view(before).push(wv));
                cur = String::new();
            }
        } else {
            push_char(&mut cur, c);
        }
        i = i + 1;
    }
    assert(s@.take(n as int) =~= s@);
    if cur.unicode_len() > 0 {
        let ghost before = done@;
        let ghost wv = cur@;
        done.push(cur);
        assert(strings_view(done@) =~= strings_view(before).push(wv));
    }
    done
}

/// `u16::from_str`: an optional `+`, then digits, with a value up to 65535.
pub open spec fn spec_parse_u16(s: Seq<char>) -> Option<nat> {
    match spec_parse_usize(s) {
        Some(n) => if n <= 65535 {
            Some(n)
        } else {
            None
        },
        None => None,
    }
}

/// ASCII lower-casing of every character (`str::to_ascii_lowercase`).
pub open spec fn lower_ascii(s: Seq<char>) -> Seq<char> {
    s.map_values(|c: char| ascii_lower(c))
}

/// The value of the first `x-sova-instance:` header line, lower-cased and trimmed.
pub open spec fn instance_from(lines: Seq<Seq<char>>) -> Option<Seq<char>>
    decreases lines.len(),
{
    if lines.len() == 0 {
        None
    } else {
        let l = lower_ascii(lines[0]);
        if is_prefix("x-sova-instance:"@, l) {
            Some(trim_ws(l.subrange(16, l.len() as int)))
        } else {
            instance_from(lines.drop_first())
        }
    }
}

/// What the readiness probe reads from a response: the status code (second
/// word of the first line) and the instance header, or `None` when the
/// status line does not give a code.
pub open spec fn spec_parse_ready_response(text: Seq<char>) -> Option<(u16, Option<Seq<char>>)> {
    let lines = text_lines(text);
    if lines.len() == 0 {
        None
    } else {
        let ws = words(lines[0]);
        if ws.len() < 2 {
            None
        } else {
            match spec_parse_u16(ws[1]) {
                Some(code) => Some((code as u16, instance_from(lines))),
                None => None,
            }
        }
    }
}

/// The lines of a text.
fn split_lines(t: &str) -> (r: Vec<String>)
    ensures
        strings_view(r@) == text_lines(t@),
{
    let n = t.unicode_len();
    let mut out: Vec<String> = Vec::new();
    if n == 0 {
        assert(strings_view(out@) =~= text_lines(t@));
        return out;
    }
    let pieces = split_char(t, '\n');
    let ghost ps = split_on(t@, '\n');
    proof {
        lemma_split_on_nonempty(t@, '\n');
    }
    let count = if t.get_char(n - 1) == '\n' { pieces.len() - 1 } else { pieces.len() };
    let ghost kept = if t@.last() == '\n' { ps.drop_last() } else { ps };
    assert(kept.len() == count);
    let mut i: usize = 0;
    while i < count
        invariant
            pieces@.len() == ps.len(),
            forall|k: int| 0 <= k < pieces@.len() ==> (#[trigger] pieces@[k])@ == ps[k],
            count == kept.len(),
            count <= pieces@.len(),
            forall|k: int| 0 <= k < kept.len() ==> kept[k] == ps[k],
            i <= count,
            strings_view(out@) == kept.take(i as int).map_values(
                |l: Seq<char>| if ends_with_char(l, '\r') { l.drop_last() } else { l },
            ),
        decreases count - i,
    {
        let line = pieces[i].as_str();
        let m = line.unicode_len();
        let piece = if m > 0 && line.get_char(m - 1) == '\r' {
            line.substring_char(0, m - 1)
        } else {
            line
        };
        let ghost before = out@;
        let owned = String::from_str(piece);
        let ghost pv = owned@;
        out.push(owned);
        proof {
            assert(pv == (if ends_with_char(kept[i as int], '\r') { kept[i as int].drop_last() } else { kept[i as int] }));
            assert(strings_view(out@) =~= strings_view(before).push(pv));
            assert(kept.take(i + 1) =~= kept.take(i as int).push(kept[i as int]));
            assert(strings_view(out@) =~= kept.take(i + 1).map_values(
                |l: Seq<char>| if ends_with_char(l, '\r') { l.drop_last() } else { l },
            ));
        }
        i = i + 1;
    }
    assert(kept.take(count as int) =~= kept);
    out
}

/// The lower-cased copy of a line.
fn lowercase_ascii(s: &str) -> (r: String)
    ensures
        r@ == lower_ascii(s@),
{
    let n = s.unicode_len();
    let mut out = String::new();
    let mut i: usize = 0;
    while i < n
        invariant
            n == s@.len(),
            i <= n,
            out@ == lower_ascii(s@.take(i as int)),
        decreases n - i,
    {
        push_char(&mut out, char_ascii_lower(s.get_char(i)));
        assert(lower_ascii(s@.take(i + 1)) =~= lower_ascii(s@.take(i as int)).push(ascii_lower(s@[i as int])));
        i = i + 1;
    }
    assert(s@.take(n as int) =~= s@);
    out
}

/// The instance header among the lines from `start` on.
fn find_instance(lines: &Vec<String>) -> (r: Option<String>)
    ensures
        match r {
            Some(v) => instance_from(strings_view(lines@)) == Some(v@),
            None => instance_from(strings_view(lines@)) is None,
        },
{
    let ghost ls = strings_view(lines@);
    let mut i: usize = 0;
    assert(ls.skip(0) =~= ls);
    while i < lines.len()
        invariant
            ls == strings_view(lines@),
            i <= lines@.len(),
            instance_from(ls) == instance_from(ls.skip(i as int)),
        decreases lines@.len() - i,
    {
        let l = lowercase_ascii(lines[i].as_str());
        proof {
            reveal_strlit("x-sova-instance:");
            assert(ls.skip(i as int)[0] == lines@[i as int]@);
            assert(ls.skip(i as int).drop_first() =~= ls.skip(i + 1));
        }
        if str_starts_with(l.as_str(), "x-sova-instance:") {
            let n = l.as_str().unicode_len();
            let v = trim(l.as_str().substring_char(16, n));
            return Some(String::from_str(v));
        }
        i = i + 1;
    }
    assert(ls.skip(lines@.len() as int) =~= Seq::<Seq<char>>::empty());
    None
}

/// Read the status code and instance header of a `GET /ready` response.
pub fn parse_ready_response(text: &str) -> (r: Option<(u16, Option<String>)>)
    ensures
        match r {
            Some((code, inst)) => spec_parse_ready_response(text@) == Some(
                (
                    code,
                    match inst {
                        Some(v) => Some(v@),
                        None => None,
                    },
                ),
            ),
            None => spec_parse_ready_response(text@) is None,
        },
{
    let lines = split_lines(text);
    if lines.len() == 0 {
        return None;
    }
    let ws = split_words(lines[0].as_str());
    if ws.len() < 2 {
        return None;
    }
    let code = match parse_usize(ws[1].as_str()) {
        Some(n) => if n <= 65535 {
            n as u16
        } else {
            return None;
        },
        None => {
            return None;
        },
    };
    let inst = find_instance(&lines);
    Some((code, inst))
}

/// A ready answer comes from the new process: a 2xx status with its instance id.
pub open spec fn spec_ready_matches(code: u16, inst: Option<Seq<char>>, instance_id: Seq<char>) -> bool {
    200 <= code < 300 && inst == Some(instance_id)
}

/// Whether a readiness answer shows the new process is up.
pub fn ready_matches(code: u16, inst: Option<&str>, instance_id: &str) -> (r: bool)
    ensures
        r == spec_ready_matches(
            code,
            match inst {
                Some(v) => Some(v@),
                None => None,
            },
            instance_id@,
        ),
{
    if !(200 <= code && code < 300) {
        return false;
    }
    match inst {
        Some(v) => str_eq(v, instance_id),
        None => false,
    }
}

/// The subcommands of `cargo sovax db`.
#[derive(Debug)]
pub enum DbCommand {
    /// Apply pending migrations (`up [N]`).
    Migrate { package: Option<String>, manifest_path: Option<String>, args: Vec<String> },
    /// Roll back applied migrations (`down [N]`, default 1).
    Down { package: Option<String>, manifest_path: Option<String>, steps: Option<u32> },
    /// Print applied / pending migrations.
    Status { package: Option<String>, manifest_path: Option<String> },
    /// Run the app `seed` CLI.
    Seed { package: Option<String>, manifest_path: Option<String> },
}

/// The arguments passed to the app's CLI for a `db` subcommand.
pub open spec fn spec_app_cli_args(cmd: DbCommand) -> Seq<Seq<char>> {
    match cmd {
        DbCommand::Migrate { args, .. } => seq!["migrate"@] + strings_view(args@),
        DbCommand::Down { steps, .. } => match steps {
            Some(n) => seq!["migrate"@, "down"@, decimal(n as nat)],
            None => seq!["migrate"@, "down"@],
        },
        DbCommand::Status { .. } => seq!["migrate"@, "status"@],
        DbCommand::Seed { .. } => seq!["seed"@],
    }
}

/// App CLI arguments for a `db` subcommand: `migrate [args..]`, `migrate down [N]`,
/// `migrate status` or `seed`.
pub fn app_cli_args(cmd: &DbCommand) -> (r: Vec<String>)
    ensures
        strings_view(r@) == spec_app_cli_args(*cmd),
{
    let mut out: Vec<String> = Vec::new();
    match cmd {
        DbCommand::Migrate { args, .. } => {
            out.push(String::from_str("migrate"));
            let mut i: usize = 0;
            while i < args.len()
                invariant
                    i <= args@.len(),
                    strings_view(out@) == seq!["migrate"@] + strings_view(args@.take(i as int)),
                decreases args@.len() - i,
            {
                let ghost before = out@;
                let a = args[i].clone();
                let ghost av = a@;
                out.push(a);
                assert(av == args@[i as int]@);
                assert(strings_view(out@) =~= strings_view(before).push(av));
                assert(strings_view(args@.take(i + 1)) =~= strings_view(args@.take(i as int)).push(av));
                assert(strings_view(out@) =~= seq!["migrate"@] + strings_view(args@.take(i + 1)));
                i = i + 1;
            }
            assert(args@.take(args@.len() as int) =~= args@);
        },
        DbCommand::Down { steps, .. } => {
            out.push(String::from_str("migrate"));
            out.push(String::from_str("down"));
            match steps {
                Some(n) => {
                    let mut s = String::new();
                    push_decimal(&mut s, *n as u128);
                    out.push(s);
                },
                None => {},
            }
        },
        DbCommand::Status { .. } => {
            out.push(String::from_str("migrate"));
            out.push(String::from_str("status"));
        },
        DbCommand::Seed { .. } => {
            out.push(String::from_str("seed"));
        },
    }
    assert(strings_view(out@) =~= spec_app_cli_args(*cmd));
    out
}

/// The port a `PORT` value names (`u16::from_str`), else the default.
pub open spec fn spec_port_or_default(value: Option<Seq<char>>, default: u16) -> u16 {
    match value {
        Some(v) => match spec_parse_u16(v) {
            Some(p) => p as u16,
            None => default,
        },
        None => default,
    }
}

/// The listening port from the value of `PORT`, when it parses.
pub fn port_or_default(value: Option<&str>, default: u16) -> (r: u16)
    ensures
        r == spec_port_or_default(
            match value {
                Some(v) => Some(v@),
                None => None,
            },
            default,
        ),
{
    match value {
        Some(v) => match parse_usize(v) {
            Some(n) => if n <= 65535 {
                n as u16
            } else {
                default
            },
            None => default,
        },
        None => default,
    }
}

} // verus!
