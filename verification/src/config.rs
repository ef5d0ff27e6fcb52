//! The configuration reader: extracts the remote-console connection
//! parameters, and the description line, from the text of a per-server
//! `key=value` configuration file.

use vstd::prelude::*;
use vstd::string::*;
use crate::text::{
    chars_of, spec_lines, spec_trim, split_lines, starts_with, string_of_range, trim_chars,
};

verus! {

/// The key that carries the remote-console port.
pub open spec fn port_key() -> Seq<char> {
    seq!['r', 'c', 'o', 'n', '.', 'p', 'o', 'r', 't', '=']
}

/// The key that carries the remote-console password.
pub open spec fn password_key() -> Seq<char> {
    seq!['r', 'c', 'o', 'n', '.', 'p', 'a', 's', 's', 'w', 'o', 'r', 'd', '=']
}

/// The key that carries the server description.
pub open spec fn motd_key() -> Seq<char> {
    seq!['m', 'o', 't', 'd', '=']
}

/// The well-known port assumed when a configuration names none.
pub open spec fn default_port() -> Seq<char> {
    seq!['2', '5', '5', '7', '5']
}

/// The value of the last line of `ls` that starts with `key`, or `dflt`
/// when no line does.  A value is everything after the key, passed through
/// untouched.
pub open spec fn last_value(ls: Seq<Seq<char>>, key: Seq<char>, dflt: Seq<char>) -> Seq<char>
    decreases ls.len(),
{
    if ls.len() == 0 {
        dflt
    } else if key.is_prefix_of(ls.last()) {
        ls.last().skip(key.len() as int)
    } else {
        last_value(ls.drop_last(), key, dflt)
    }
}

/// The remote-console port named by `content`, or the well-known default.
pub open spec fn spec_rcon_port(content: Seq<char>) -> Seq<char> {
    last_value(spec_lines(content), port_key(), default_port())
}

/// The remote-console password named by `content`; empty when the console
/// is disabled.
pub open spec fn spec_rcon_password(content: Seq<char>) -> Seq<char> {
    last_value(spec_lines(content), password_key(), Seq::empty())
}

/// Whether `content` enables the remote console: a non-empty password.
pub open spec fn spec_rcon_enabled(content: Seq<char>) -> bool {
    spec_rcon_password(content).len() > 0
}

/// The remote-console connection parameters of one server, re-derived from
/// its configuration file on every probe and never persisted.
pub struct ServerConnectionConfig {
    /// The configured port, an opaque string with no validation applied.
    pub rcon_port: String,
    /// The configured password; empty means the console is disabled.
    pub rcon_password: String,
}

impl ServerConnectionConfig {
    /// Whether this configuration enables the remote console.
    pub fn rcon_enabled(&self) -> (r: bool)
        ensures
            r == (self.rcon_password@.len() > 0),
    {
        !self.rcon_password.as_str().is_empty()
    }
}

/// The characters of `port_key`, for the executable scan.
fn port_key_chars() -> (k: Vec<char>)
    ensures
        k@ == port_key(),
{
    let k = chars_of("rcon.port=");
    proof {
        reveal_strlit("rcon.port=");
        assert(k@ =~= port_key());
    }
    k
}

/// The characters of `password_key`, for the executable scan.
fn password_key_chars() -> (k: Vec<char>)
    ensures
        k@ == password_key(),
{
    let k = chars_of("rcon.password=");
    proof {
        reveal_strlit("rcon.password=");
        assert(k@ =~= password_key());
    }
    k
}

/// The value of the last line of `lines` that starts with `key`, or `dflt`
/// when no line does, as `last_value` describes it.
fn extract_last(lines: &Vec<Vec<char>>, key: &Vec<char>, dflt: &str) -> (r: String)
    ensures
        r@ == last_value(lines.deep_view(), key@, dflt@),
{
    let ghost ls = lines.deep_view();
    let mut r = String::from_str(dflt);
    let mut i: usize = 0;
    proof {
        assert(ls.take(0) =~= Seq::<Seq<char>>::empty());
        assert(ls.len() == lines@.len());
    }
    while i < lines.len()
        invariant
            i <= lines@.len(),
            ls == lines.deep_view(),
            ls.len() == lines@.len(),
            r@ == last_value(ls.take(i as int), key@, dflt@),
        decreases lines@.len() - i,
    {
        let line = &lines[i];
        proof {
            assert(line@ == ls[i as int]);
            assert(ls.take(i + 1).last() == ls[i as int]);
            assert(ls.take(i + 1).drop_last() =~= ls.take(i as int));
        }
        if starts_with(line, key) {
            r = string_of_range(line, key.len(), line.len());
            proof {
                assert(r@ =~= ls[i as int].skip(key@.len() as int));
            }
        }
        i += 1;
    }
    proof {
        assert(ls.take(ls.len() as int) =~= ls);
    }
    r
}

/// The connection parameters carried by `content`: the values of the last
/// `rcon.port=` and `rcon.password=` lines, with the well-known default
/// port and an empty password when the keys are absent.  Absent keys are a
/// defined state, not an error.
pub fn parse_server_config(content: &str) -> (c: ServerConnectionConfig)
    ensures
        c.rcon_port@ == spec_rcon_port(content@),
        c.rcon_password@ == spec_rcon_password(content@),
{
    let chars = chars_of(content);
    let lines = split_lines(&chars);
    let pk = port_key_chars();
    let wk = password_key_chars();
    let rcon_port = extract_last(&lines, &pk, "25575");
    let rcon_password = extract_last(&lines, &wk, "");
    proof {
        reveal_strlit("25575");
        assert("25575"@ =~= default_port());
        reveal_strlit("");
        assert(""@ =~= Seq::<char>::empty());
    }
    ServerConnectionConfig { rcon_port, rcon_password }
}

/// The description carried by `ls`: the value of the first line that, once
/// trimmed, is neither empty nor a `#` comment and starts with `key`; empty
/// when no line matches.  The value is taken from the trimmed line.
pub open spec fn first_trimmed_value(ls: Seq<Seq<char>>, key: Seq<char>) -> Seq<char>
    decreases ls.len(),
{
    if ls.len() == 0 {
        Seq::empty()
    } else {
        let t = spec_trim(ls.first());
        if t.len() > 0 && t[0] != '#' && key.is_prefix_of(t) {
            t.skip(key.len() as int)
        } else {
            first_trimmed_value(ls.drop_first(), key)
        }
    }
}

/// The server description named by `content`.
pub open spec fn spec_motd(content: Seq<char>) -> Seq<char> {
    first_trimmed_value(spec_lines(content), motd_key())
}

/// The description carried by `content`: the value of the first effective
/// `motd=` line, as `spec_motd` describes it; empty when there is none.
pub fn extract_motd(content: &str) -> (r: String)
    ensures
        r@ == spec_motd(content@),
{
    let chars = chars_of(content);
    let lines = split_lines(&chars);
    let ghost ls = lines.deep_view();
    let key = chars_of("motd=");
    proof {
        reveal_strlit("motd=");
        assert(key@ =~= motd_key());
        assert(ls.skip(0) =~= ls);
    }
    let mut i: usize = 0;
    while i < lines.len()
        invariant
            i <= lines@.len(),
            ls == lines.deep_view(),
            ls.len() == lines@.len(),
            key@ == motd_key(),
            chars@ == content@,
            spec_motd(content@) == first_trimmed_value(ls.skip(i as int), motd_key()),
        decreases lines@.len() - i,
    {
        let line = &lines[i];
        proof {
            assert(line@ == ls[i as int]);
            assert(ls.skip(i as int).first() == ls[i as int]);
            assert(ls.skip(i as int).drop_first() =~= ls.skip(i + 1));
        }
        let t = trim_chars(line);
        if t.len() > 0 && t[0] != '#' && starts_with(&t, &key) {
            let r = string_of_range(&t, key.len(), t.len());
            proof {
                assert(r@ =~= spec_trim(ls[i as int]).skip(motd_key().len() as int));
            }
            return r;
        }
        i += 1;
    }
    proof {
        assert(ls.skip(ls.len() as int) =~= Seq::<Seq<char>>::empty());
    }
    String::new()
}

} // verus!
