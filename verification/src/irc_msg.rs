//! The IRC message model: the small subset of the protocol a chat bot
//! needs, with byte-exact parsing and serialization.
//!
//! One wire line is `[:prefix ] command [params]\r\n`.  The prefix names
//! the sender (`nick[!user[@host]]`), the command is one of the handful
//! of commands the bot reacts to, and the parameters are space-separated
//! words with an optional `:trailing` payload that may itself contain
//! spaces.

use vstd::prelude::*;

verus! {

/// The sender information of a message.
#[derive(Clone)]
pub struct Prefix {
    pub servername_nick: Vec<u8>,
    pub user: Option<Vec<u8>>,
    pub host: Option<Vec<u8>>,
}

/// The commands the bot understands.
#[derive(Clone, Copy, PartialEq, Eq, Structural, Debug)]
pub enum Command {
    ReplyWelcome,
    Pass,
    Nick,
    Join,
    ReplyEndOfNames,
    Privmsg,
    Ping,
    Pong,
}

/// A message's parameter list.
#[derive(Clone)]
pub struct Params(pub Vec<Vec<u8>>);

/// One parsed IRC message.
#[derive(Clone)]
pub struct IrcMessage {
    pub prefix: Option<Prefix>,
    pub command: Command,
    pub params: Option<Params>,
}

/// The mathematical shape of a prefix.
pub struct PrefixSpec {
    pub servername_nick: Seq<u8>,
    pub user: Option<Seq<u8>>,
    pub host: Option<Seq<u8>>,
}

/// The mathematical shape of a message.
pub struct MsgSpec {
    pub prefix: Option<PrefixSpec>,
    pub command: Command,
    pub params: Option<Seq<Seq<u8>>>,
}

impl View for Prefix {
    type V = PrefixSpec;

    open spec fn view(&self) -> PrefixSpec {
        PrefixSpec {
            servername_nick: self.servername_nick@,
            user: match self.user {
                Option::Some(u) => Some(u@),
                Option::None => None,
            },
            host: match self.host {
                Option::Some(h) => Some(h@),
                Option::None => None,
            },
        }
    }
}

impl View for IrcMessage {
    type V = MsgSpec;

    open spec fn view(&self) -> MsgSpec {
        MsgSpec {
            prefix: match self.prefix {
                Option::Some(p) => Some(p@),
                Option::None => None,
            },
            command: self.command,
            params: match self.params {
                Option::Some(ps) => Some(ps.0@.map(|i: int, p: Vec<u8>| p@)),
                Option::None => None,
            },
        }
    }
}

/// First position at or after `i` holding byte `b`, or the end.
pub open spec fn find_byte(s: Seq<u8>, b: u8, i: int) -> int
    decreases s.len() - i,
{
    if 0 <= i && i < s.len() {
        if s[i] == b {
            i
        } else {
            find_byte(s, b, i + 1)
        }
    } else {
        i
    }
}

pub proof fn lemma_find_byte_range(s: Seq<u8>, b: u8, i: int)
    requires
        0 <= i <= s.len(),
    ensures
        i <= find_byte(s, b, i) <= s.len(),
        find_byte(s, b, i) < s.len() ==> s[find_byte(s, b, i)] == b,
        forall|k: int| i <= k < find_byte(s, b, i) ==> s[k] != b,
    decreases s.len() - i,
{
    if i < s.len() && s[i] != b {
        lemma_find_byte_range(s, b, i + 1);
    }
}

/// ASCII letter or digit.
pub open spec fn is_alnum(b: u8) -> bool {
    (48 <= b && b <= 57) || (65 <= b && b <= 90) || (97 <= b && b <= 122)
}

/// First position at or after `i` holding a non-alphanumeric byte.
pub open spec fn scan_alnum(s: Seq<u8>, i: int) -> int
    decreases s.len() - i,
{
    if 0 <= i && i < s.len() && is_alnum(s[i]) {
        scan_alnum(s, i + 1)
    } else {
        i
    }
}

/// A printable, non-space byte — what a prefix may consist of.
pub open spec fn is_graph(b: u8) -> bool {
    33 <= b && b <= 126
}

/// ASCII whitespace, for parameter trimming.
pub open spec fn is_ws(b: u8) -> bool {
    b == 32 || (9 <= b && b <= 13)
}

/// Split the prefix text into sender, user and host: the sender runs
/// from the first non-`!` byte to the next `!` (or the end); after a
/// `!`, the user runs to the next `@`; after a `@`, the host is the
/// rest.  Text without any sender byte has no valid prefix.
pub open spec fn spec_parse_prefix(t: Seq<u8>) -> Option<PrefixSpec> {
    let st = find_not_bang(t, 0);
    if st >= t.len() {
        None
    } else {
        let e = find_byte(t, 33, st);
        let nick = t.subrange(st, e);
        if e >= t.len() {
            Some(PrefixSpec { servername_nick: nick, user: None, host: None })
        } else {
            let a = find_byte(t, 64, e + 1);
            let user = t.subrange(e + 1, a);
            if a >= t.len() {
                Some(PrefixSpec { servername_nick: nick, user: Some(user), host: None })
            } else {
                Some(
                    PrefixSpec {
                        servername_nick: nick,
                        user: Some(user),
                        host: Some(t.subrange(a + 1, t.len() as int)),
                    },
                )
            }
        }
    }
}

/// First position at or after `i` holding a byte other than `!`.
pub open spec fn find_not_bang(s: Seq<u8>, i: int) -> int
    decreases s.len() - i,
{
    if 0 <= i && i < s.len() && s[i] == 33 {
        find_not_bang(s, i + 1)
    } else {
        i
    }
}

/// The command named by a byte word, textually or numerically.
pub open spec fn spec_command_of(b: Seq<u8>) -> Option<Command> {
    if b == seq![48u8, 48u8, 49u8] || b == seq![82u8, 80u8, 76u8, 95u8, 87u8, 69u8, 76u8, 67u8, 79u8, 77u8, 69u8] {
        Some(Command::ReplyWelcome)
    } else if b == seq![80u8, 65u8, 83u8, 83u8] {
        Some(Command::Pass)
    } else if b == seq![78u8, 73u8, 67u8, 75u8] {
        Some(Command::Nick)
    } else if b == seq![74u8, 79u8, 73u8, 78u8] {
        Some(Command::Join)
    } else if b == seq![51u8, 54u8, 54u8] || b == seq![82u8, 80u8, 76u8, 95u8, 69u8, 78u8, 68u8, 79u8, 70u8, 78u8, 65u8, 77u8, 69u8, 83u8] {
        Some(Command::ReplyEndOfNames)
    } else if b == seq![80u8, 82u8, 73u8, 86u8, 77u8, 83u8, 71u8] {
        Some(Command::Privmsg)
    } else if b == seq![80u8, 73u8, 78u8, 71u8] {
        Some(Command::Ping)
    } else if b == seq![80u8, 79u8, 78u8, 71u8] {
        Some(Command::Pong)
    } else {
        None
    }
}

/// The wire word of a command.
pub open spec fn spec_command_bytes(c: Command) -> Seq<u8> {
    match c {
        Command::ReplyWelcome => seq![82u8, 80u8, 76u8, 95u8, 87u8, 69u8, 76u8, 67u8, 79u8, 77u8, 69u8],
        Command::Pass => seq![80u8, 65u8, 83u8, 83u8],
        Command::Nick => seq![78u8, 73u8, 67u8, 75u8],
        Command::Join => seq![74u8, 79u8, 73u8, 78u8],
        Command::ReplyEndOfNames => seq![82u8, 80u8, 76u8, 95u8, 69u8, 78u8, 68u8, 79u8, 70u8, 78u8, 65u8, 77u8, 69u8, 83u8],
        Command::Privmsg => seq![80u8, 82u8, 73u8, 86u8, 77u8, 83u8, 71u8],
        Command::Ping => seq![80u8, 73u8, 78u8, 71u8],
        Command::Pong => seq![80u8, 79u8, 78u8, 71u8],
    }
}

/// Strip ASCII whitespace from both ends.
pub open spec fn spec_trim(s: Seq<u8>) -> Seq<u8>
    decreases s.len(),
{
    if s.len() == 0 {
        s
    } else if is_ws(s[0]) {
        spec_trim(s.drop_first())
    } else if is_ws(s.last()) {
        spec_trim(s.drop_last())
    } else {
        s
    }
}

/// Split on single spaces; consecutive spaces yield empty words, and the
/// result always has at least one (possibly empty) word.
pub open spec fn spec_split_spaces(s: Seq<u8>) -> Seq<Seq<u8>>
    decreases s.len(),
{
    let e = find_byte(s, 32, 0);
    if !(0 <= e && e < s.len()) {
        seq![s]
    } else {
        seq![s.subrange(0, e)] + spec_split_spaces(s.subrange(e + 1, s.len() as int))
    }
}

/// The parameter words of a raw parameter region: the middles (up to the
/// first `:`), trimmed and split on spaces, then the trailing payload
/// after the `:` (if non-empty).
pub open spec fn spec_parse_params(r: Seq<u8>) -> Seq<Seq<u8>> {
    let m = find_byte(r, 58, 0);
    let middles: Seq<Seq<u8>> = if m == 0 {
        Seq::empty()
    } else {
        spec_split_spaces(spec_trim(r.subrange(0, m)))
    };
    let trailing: Seq<Seq<u8>> = if m < r.len() && m + 1 < r.len() {
        seq![r.subrange(m + 1, r.len() as int)]
    } else {
        Seq::empty()
    };
    middles + trailing
}

/// Parse one wire line into a message shape.
///
/// The line must contain a carriage return; everything after the first
/// one is ignored.  A leading `:` introduces a prefix running to the
/// first space (made of printable bytes); the command word is the
/// following alphanumeric run; the rest of the line up to the carriage
/// return is the parameter region.  Fails with 1 when no carriage
/// return is present (or the line is mangled by an embedded newline),
/// with 2 for an unknown command word, and with 3 when no command word
/// is present at all.
pub open spec fn spec_parse_message(s: Seq<u8>) -> Result<MsgSpec, u8> {
    let cr = find_byte(s, 13, 0);
    if cr >= s.len() {
        Err(1)
    } else {
        let has_prefix = {
            &&& s.len() > 0
            &&& s[0] == 58
            &&& {
                let sp = find_byte(s, 32, 1);
                sp < s.len() && sp > 1 && forall|k: int| 1 <= k < sp ==> is_graph(#[trigger] s[k])
            }
        };
        let p: int = if has_prefix {
            find_byte(s, 32, 1) + 1
        } else {
            0
        };
        let prefix: Option<PrefixSpec> = if has_prefix {
            spec_parse_prefix(s.subrange(1, find_byte(s, 32, 1)))
        } else {
            None
        };
        if p > cr {
            Err(3)
        } else {
            let ce = scan_alnum(s, p);
            if ce == p {
                Err(3)
            } else {
                match spec_command_of(s.subrange(p, ce)) {
                    Option::None => Err(2),
                    Option::Some(cmd) => {
                        let p2: int = if ce < s.len() && s[ce] == 32 {
                            ce + 1
                        } else {
                            ce
                        };
                        if p2 > cr {
                            Err(1)
                        } else if find_byte(s, 10, p2) < cr {
                            Err(1)
                        } else {
                            Ok(
                                MsgSpec {
                                    prefix,
                                    command: cmd,
                                    params: Some(spec_parse_params(s.subrange(p2, cr))),
                                },
                            )
                        }
                    },
                }
            }
        }
    }
}

/// Join parameter words for the wire: spaces between words, the last
/// word introduced by `:`.
pub open spec fn spec_join_params(ps: Seq<Seq<u8>>) -> Seq<u8>
    decreases ps.len(),
{
    if ps.len() == 0 {
        Seq::empty()
    } else if ps.len() == 1 {
        seq![58u8] + ps[0]
    } else {
        ps[0] + seq![32u8] + spec_join_params(ps.drop_first())
    }
}

pub open spec fn spec_prefix_bytes(p: PrefixSpec) -> Seq<u8> {
    seq![58u8] + p.servername_nick + (match p.user {
        Option::Some(u) => seq![33u8] + u,
        Option::None => Seq::empty(),
    }) + (match p.host {
        Option::Some(h) => seq![64u8] + h,
        Option::None => Seq::empty(),
    })
}

/// Serialize a message for the wire, ending in the line terminator.  The
/// last parameter is written as the trailing parameter.
pub open spec fn spec_serialize(m: MsgSpec) -> Seq<u8> {
    (match m.prefix {
        Option::Some(p) => spec_prefix_bytes(p) + seq![32u8],
        Option::None => Seq::empty(),
    }) + spec_command_bytes(m.command) + seq![32u8] + (match m.params {
        Option::Some(ps) => spec_join_params(ps),
        Option::None => Seq::empty(),
    }) + seq![13u8, 10u8]
}

} // verus!

verus! {

/// The bytes `s[a..b)` as a fresh vector.
fn copy_range(s: &[u8], a: usize, b: usize) -> (r: Vec<u8>)
    requires
        a <= b <= s@.len(),
    ensures
        r@ == s@.subrange(a as int, b as int),
{
    vstd::slice::slice_to_vec(vstd::slice::slice_subrange(s, a, b))
}

fn find_byte_x(s: &[u8], b: u8, i: usize) -> (r: usize)
    requires
        i <= s@.len(),
    ensures
        r == find_byte(s@, b, i as int),
        i <= r <= s@.len(),
        r < s@.len() ==> s@[r as int] == b,
        forall|k: int| i <= k < r ==> s@[k] != b,
    decreases s@.len() - i,
{
    proof {
        lemma_find_byte_range(s@, b, i as int);
    }
    if i < s.len() {
        if s[i] == b {
            i
        } else {
            find_byte_x(s, b, i + 1)
        }
    } else {
        i
    }
}

fn scan_alnum_x(s: &[u8], i: usize) -> (r: usize)
    requires
        i <= s@.len(),
    ensures
        r == scan_alnum(s@, i as int),
        i <= r <= s@.len(),
    decreases s@.len() - i,
{
    if i < s.len() {
        let b = s[i];
        if (48 <= b && b <= 57) || (65 <= b && b <= 90) || (97 <= b && b <= 122) {
            return scan_alnum_x(s, i + 1);
        }
    }
    i
}

fn find_not_bang_x(s: &[u8], i: usize) -> (r: usize)
    requires
        i <= s@.len(),
    ensures
        r == find_not_bang(s@, i as int),
        i <= r <= s@.len(),
    decreases s@.len() - i,
{
    if i < s.len() && s[i] == 33 {
        find_not_bang_x(s, i + 1)
    } else {
        i
    }
}

impl Command {
    /// Recognise a command word.
    pub fn from_bytes(b: &[u8]) -> (r: Result<Command, u8>)
        ensures
            match spec_command_of(b@) {
                Option::Some(c) => r == Ok::<Command, u8>(c),
                Option::None => r == Err::<Command, u8>(1u8),
            },
    {
        let w001: Vec<u8> = vec![48, 48, 49];
        let wwel: Vec<u8> = vec![82, 80, 76, 95, 87, 69, 76, 67, 79, 77, 69];
        let wpass: Vec<u8> = vec![80, 65, 83, 83];
        let wnick: Vec<u8> = vec![78, 73, 67, 75];
        let wjoin: Vec<u8> = vec![74, 79, 73, 78];
        let w366: Vec<u8> = vec![51, 54, 54];
        let weon: Vec<u8> = vec![82, 80, 76, 95, 69, 78, 68, 79, 70, 78, 65, 77, 69, 83];
        let wpriv: Vec<u8> = vec![80, 82, 73, 86, 77, 83, 71];
        let wping: Vec<u8> = vec![80, 73, 78, 71];
        let wpong: Vec<u8> = vec![80, 79, 78, 71];
        proof {
            assert(w001@ =~= seq![48u8, 48u8, 49u8]);
            assert(wwel@ =~= seq![82u8, 80u8, 76u8, 95u8, 87u8, 69u8, 76u8, 67u8, 79u8, 77u8, 69u8]);
            assert(wpass@ =~= seq![80u8, 65u8, 83u8, 83u8]);
            assert(wnick@ =~= seq![78u8, 73u8, 67u8, 75u8]);
            assert(wjoin@ =~= seq![74u8, 79u8, 73u8, 78u8]);
            assert(w366@ =~= seq![51u8, 54u8, 54u8]);
            assert(weon@ =~= seq![82u8, 80u8, 76u8, 95u8, 69u8, 78u8, 68u8, 79u8, 70u8, 78u8, 65u8, 77u8, 69u8, 83u8]);
            assert(wpriv@ =~= seq![80u8, 82u8, 73u8, 86u8, 77u8, 83u8, 71u8]);
            assert(wping@ =~= seq![80u8, 73u8, 78u8, 71u8]);
            assert(wpong@ =~= seq![80u8, 79u8, 78u8, 71u8]);
        }
        if crate::caps::bytes_eq(b, w001.as_slice()) || crate::caps::bytes_eq(b, wwel.as_slice()) {
            Ok(Command::ReplyWelcome)
        } else if crate::caps::bytes_eq(b, wpass.as_slice()) {
            Ok(Command::Pass)
        } else if crate::caps::bytes_eq(b, wnick.as_slice()) {
            Ok(Command::Nick)
        } else if crate::caps::bytes_eq(b, wjoin.as_slice()) {
            Ok(Command::Join)
        } else if crate::caps::bytes_eq(b, w366.as_slice()) || crate::caps::bytes_eq(
            b,
            weon.as_slice(),
        ) {
            Ok(Command::ReplyEndOfNames)
        } else if crate::caps::bytes_eq(b, wpriv.as_slice()) {
            Ok(Command::Privmsg)
        } else if crate::caps::bytes_eq(b, wping.as_slice()) {
            Ok(Command::Ping)
        } else if crate::caps::bytes_eq(b, wpong.as_slice()) {
            Ok(Command::Pong)
        } else {
            Err(1)
        }
    }

    /// The command's wire word.
    pub fn to_bytes(&self) -> (r: Vec<u8>)
        ensures
            r@ == spec_command_bytes(*self),
    {
        let v: Vec<u8> = match self {
            Command::ReplyWelcome => vec![82, 80, 76, 95, 87, 69, 76, 67, 79, 77, 69],
            Command::Pass => vec![80, 65, 83, 83],
            Command::Nick => vec![78, 73, 67, 75],
            Command::Join => vec![74, 79, 73, 78],
            Command::ReplyEndOfNames => vec![82, 80, 76, 95, 69, 78, 68, 79, 70, 78, 65, 77, 69, 83],
            Command::Privmsg => vec![80, 82, 73, 86, 77, 83, 71],
            Command::Ping => vec![80, 73, 78, 71],
            Command::Pong => vec![80, 79, 78, 71],
        };
        proof {
            assert(v@ =~= spec_command_bytes(*self));
        }
        v
    }
}

impl Prefix {
    /// Split prefix text into sender, user and host.
    pub fn parse(t: &[u8]) -> (r: Result<Prefix, u8>)
        ensures
            match spec_parse_prefix(t@) {
                Option::Some(ps) => r matches Ok(p) && p@ == ps,
                Option::None => r == Err::<Prefix, u8>(1u8),
            },
    {
        let st = find_not_bang_x(t, 0);
        if st >= t.len() {
            return Err(1);
        }
        let e = find_byte_x(t, 33, st);
        let nick = copy_range(t, st, e);
        if e >= t.len() {
            return Ok(Prefix { servername_nick: nick, user: None, host: None });
        }
        let a = find_byte_x(t, 64, e + 1);
        let user = copy_range(t, e + 1, a);
        if a >= t.len() {
            return Ok(Prefix { servername_nick: nick, user: Some(user), host: None });
        }
        let host = copy_range(t, a + 1, t.len());
        Ok(Prefix { servername_nick: nick, user: Some(user), host: Some(host) })
    }

    /// The prefix's wire form, starting with `:`.
    pub fn to_bytes(&self) -> (r: Vec<u8>)
        ensures
            r@ == spec_prefix_bytes(self@),
    {
        let mut v: Vec<u8> = Vec::new();
        v.push(58);
        crate::adapter::push_bytes(&mut v, self.servername_nick.as_slice());
        proof {
            assert(v@ =~= seq![58u8] + self.servername_nick@);
        }
        match &self.user {
            Option::Some(u) => {
                v.push(33);
                crate::adapter::push_bytes(&mut v, u.as_slice());
            },
            Option::None => {},
        }
        proof {
            assert(v@ =~= seq![58u8] + self.servername_nick@ + (match self@.user {
                Option::Some(u) => seq![33u8] + u,
                Option::None => Seq::<u8>::empty(),
            }));
        }
        match &self.host {
            Option::Some(h) => {
                v.push(64);
                crate::adapter::push_bytes(&mut v, h.as_slice());
            },
            Option::None => {},
        }
        proof {
            assert(v@ =~= spec_prefix_bytes(self@));
        }
        v
    }
}

/// Strip ASCII whitespace from both ends of `s[a..b)`, returning the
/// trimmed sub-slice's bounds.
fn trim_range(s: &[u8], a: usize, b: usize) -> (r: (usize, usize))
    requires
        a <= b <= s@.len(),
    ensures
        a <= r.0 <= r.1 <= b,
        spec_trim(s@.subrange(a as int, b as int)) == s@.subrange(r.0 as int, r.1 as int),
    decreases b - a,
{
    let ghost t = s@.subrange(a as int, b as int);
    if a < b {
        let h = s[a];
        if h == 32 || (9 <= h && h <= 13) {
            proof {
                assert(t.drop_first() =~= s@.subrange(a as int + 1, b as int));
            }
            return trim_range(s, a + 1, b);
        }
        let l = s[b - 1];
        if l == 32 || (9 <= l && l <= 13) {
            proof {
                assert(t.drop_last() =~= s@.subrange(a as int, b as int - 1));
            }
            return trim_range(s, a, b - 1);
        }
        proof {
            assert(spec_trim(t) == t);
        }
        (a, b)
    } else {
        proof {
            assert(t =~= Seq::<u8>::empty());
        }
        (a, b)
    }
}

} // verus!

verus! {

/// Split `s[a..b)` on single spaces.
fn split_spaces_range(s: &[u8], a: usize, b: usize) -> (r: Vec<Vec<u8>>)
    requires
        a <= b <= s@.len(),
    ensures
        r@.map(|i: int, p: Vec<u8>| p@) == spec_split_spaces(s@.subrange(a as int, b as int)),
    decreases b - a,
{
    let ghost t = s@.subrange(a as int, b as int);
    let e = find_byte_x(s, 32, a);
    if e >= b {
        proof {
            lemma_find_byte_subrange(s@, a as int, b as int);
            assert(find_byte(t, 32, 0) >= t.len());
        }
        let mut r: Vec<Vec<u8>> = Vec::new();
        r.push(copy_range(s, a, b));
        proof {
            assert(r@.map(|i: int, p: Vec<u8>| p@) =~= seq![t]);
        }
        r
    } else {
        proof {
            lemma_find_byte_subrange(s@, a as int, b as int);
            assert(find_byte(t, 32, 0) == e - a);
            assert(t.subrange(0, e - a) =~= s@.subrange(a as int, e as int));
            assert(t.subrange(e - a + 1, t.len() as int) =~= s@.subrange(e as int + 1, b as int));
        }
        let head = copy_range(s, a, e);
        let mut rest = split_spaces_range(s, e + 1, b);
        let mut r: Vec<Vec<u8>> = Vec::new();
        r.push(head);
        let nrest = rest.len();
        let mut i: usize = 0;
        while i < nrest
            invariant
                nrest == rest@.len(),
                i <= nrest,
                r@.len() == 1 + i,
                r@[0]@ == s@.subrange(a as int, e as int),
                a <= e < b <= s@.len(),
                forall|k: int| 0 <= k < i as int ==> r@[1 + k]@ == (#[trigger] rest@[k])@,
            decreases nrest - i,
        {
            let p = copy_whole(&rest[i]);
            r.push(p);
            i = i + 1;
        }
        proof {
            assert(r@.map(|i: int, p: Vec<u8>| p@) =~= seq![s@.subrange(a as int, e as int)]
                + rest@.map(|i: int, p: Vec<u8>| p@));
        }
        r
    }
}

/// A fresh copy of a byte vector.
fn copy_whole(v: &Vec<u8>) -> (r: Vec<u8>)
    ensures
        r@ == v@,
{
    vstd::slice::slice_to_vec(v.as_slice())
}

/// Finding a byte inside a window of `s` is finding it in the window's
/// own coordinates.
proof fn lemma_find_byte_subrange(s: Seq<u8>, a: int, b: int)
    requires
        0 <= a <= b <= s.len(),
    ensures
        ({
            let t = s.subrange(a, b);
            let e = find_byte(s, 32, a);
            &&& e >= b ==> find_byte(t, 32, 0) >= t.len()
            &&& a <= e < b ==> find_byte(t, 32, 0) == e - a
        }),
{
    let t = s.subrange(a, b);
    lemma_find_byte_range(s, 32, a);
    lemma_find_byte_range(t, 32, 0);
    let e = find_byte(s, 32, a);
    let f = find_byte(t, 32, 0);
    if e >= b {
        if f < t.len() {
            assert(s[a + f] == 32);
        }
    } else {
        if f < e - a {
            assert(s[a + f] == 32);
        }
        if f > e - a {
            assert(t[e - a] == 32);
        }
        if f == t.len() {
            assert(t[e - a] == 32);
        }
    }
}

/// Every byte of `s[lo..hi)` is printable and not a space.
fn all_graph(s: &[u8], lo: usize, hi: usize) -> (r: bool)
    requires
        lo <= hi <= s@.len(),
    ensures
        r == (forall|q: int| lo <= q < hi ==> is_graph(#[trigger] s@[q])),
{
    let mut k = lo;
    while k < hi
        invariant
            lo <= k <= hi,
            hi <= s@.len(),
            forall|q: int| lo <= q < k ==> is_graph(#[trigger] s@[q]),
        decreases hi - k,
    {
        let b = s[k];
        if !(33 <= b && b <= 126) {
            proof {
                assert(!is_graph(s@[k as int]));
            }
            return false;
        }
        k = k + 1;
    }
    true
}

impl IrcMessage {
    /// Parse one wire line.
    pub fn parse(s: &[u8]) -> (r: Result<IrcMessage, u8>)
        ensures
            match r {
                Result::Ok(m) => spec_parse_message(s@) matches Ok(ms) && m@ == ms,
                Result::Err(e) => spec_parse_message(s@) == Err::<MsgSpec, u8>(e),
            },
    {
        let cr = find_byte_x(s, 13, 0);
        if cr >= s.len() {
            return Err(1);
        }
        let mut has_prefix = false;
        let mut p: usize = 0;
        let mut prefix: Option<Prefix> = None;
        if s.len() > 0 && s[0] == 58 {
            let sp = find_byte_x(s, 32, 1);
            let graph_ok = sp < s.len() && sp > 1 && all_graph(s, 1, sp);
            if graph_ok {
                has_prefix = true;
                p = sp + 1;
                let ptext = copy_range(s, 1, sp);
                prefix = match Prefix::parse(ptext.as_slice()) {
                    Result::Ok(pre) => Some(pre),
                    Result::Err(_) => None,
                };
            }
        }
        proof {
            let spec_has = {
                &&& s@.len() > 0
                &&& s@[0] == 58
                &&& {
                    let sp = find_byte(s@, 32, 1);
                    sp < s@.len() && sp > 1 && forall|k: int|
                        1 <= k < sp ==> is_graph(#[trigger] s@[k])
                }
            };
            assert(has_prefix == spec_has);
        }
        if p > cr {
            return Err(3);
        }
        let ce = scan_alnum_x(s, p);
        if ce == p {
            return Err(3);
        }
        let word = copy_range(s, p, ce);
        let cmd = match Command::from_bytes(word.as_slice()) {
            Result::Ok(c) => c,
            Result::Err(_) => {
                return Err(2);
            },
        };
        let p2: usize = if ce < s.len() && s[ce] == 32 {
            ce + 1
        } else {
            ce
        };
        if p2 > cr {
            return Err(1);
        }
        let nl = find_byte_x(s, 10, p2);
        if nl < cr {
            return Err(1);
        }
        let params = Self::parse_params(s, p2, cr);
        Ok(IrcMessage { prefix, command: cmd, params: Some(params) })
    }

    /// Parse the parameter region `s[a..b)` into words.
    fn parse_params(s: &[u8], a: usize, b: usize) -> (r: Params)
        requires
            a <= b <= s@.len(),
        ensures
            r.0@.map(|i: int, p: Vec<u8>| p@) == spec_parse_params(s@.subrange(a as int, b as int)),
    {
        let ghost region = s@.subrange(a as int, b as int);
        let m = find_byte_x(s, 58, a);
        proof {
            lemma_find_byte_colon_subrange(s@, a as int, b as int);
        }
        let mend = if m > b {
            b
        } else {
            m
        };
        proof {
            lemma_find_byte_range(s@, 58, a as int);
            lemma_find_byte_range(region, 58, 0);
            assert(find_byte(region, 58, 0) == mend - a);
        }
        let ghost mreg = (mend - a) as int;
        let ghost spec_middles: Seq<Seq<u8>> = if mreg == 0 {
            Seq::empty()
        } else {
            spec_split_spaces(spec_trim(region.subrange(0, mreg)))
        };
        let mut words: Vec<Vec<u8>> = Vec::new();
        if mend > a {
            let (ta, tb) = trim_range(s, a, mend);
            proof {
                assert(s@.subrange(a as int, mend as int) =~= region.subrange(0, mreg));
            }
            words = split_spaces_range(s, ta, tb);
        }
        proof {
            assert(words@.map(|i: int, p: Vec<u8>| p@) =~= spec_middles);
        }
        let mut trailing: Option<Vec<u8>> = None;
        if mend < b && mend + 1 < b {
            trailing = Some(copy_range(s, mend + 1, b));
        }
        let ghost spec_trailing: Seq<Seq<u8>> = if mreg < region.len() && mreg + 1 < region.len() {
            seq![region.subrange(mreg + 1, region.len() as int)]
        } else {
            Seq::empty()
        };
        proof {
            assert(spec_parse_params(region) == spec_middles + spec_trailing);
        }
        let ghost words_views = words@.map(|i: int, p: Vec<u8>| p@);
        match trailing {
            Option::Some(t) => {
                let ghost tview = t@;
                words.push(t);
                proof {
                    assert(words@.map(|i: int, p: Vec<u8>| p@) =~= words_views + seq![tview]);
                    assert(tview =~= region.subrange(mreg + 1, region.len() as int));
                    assert(words@.map(|i: int, p: Vec<u8>| p@) =~= spec_middles + spec_trailing);
                }
            },
            Option::None => {
                proof {
                    assert(words_views + Seq::<Seq<u8>>::empty() =~= words_views);
                    assert(words@.map(|i: int, p: Vec<u8>| p@) =~= spec_middles + spec_trailing);
                }
            },
        }
        Params(words)
    }
}

/// Finding `:` inside the window in window coordinates.
proof fn lemma_find_byte_colon_subrange(s: Seq<u8>, a: int, b: int)
    requires
        0 <= a <= b <= s.len(),
    ensures
        ({
            let region = s.subrange(a, b);
            let m = find_byte(s, 58, a);
            &&& m >= b ==> find_byte(region, 58, 0) >= region.len()
            &&& a <= m < b ==> find_byte(region, 58, 0) == m - a
        }),
{
    let region = s.subrange(a, b);
    lemma_find_byte_range(s, 58, a);
    lemma_find_byte_range(region, 58, 0);
    let m = find_byte(s, 58, a);
    let f = find_byte(region, 58, 0);
    if m >= b {
        if f < region.len() {
            assert(s[a + f] == 58);
        }
    } else {
        if f < m - a {
            assert(s[a + f] == 58);
        }
        if f > m - a {
            assert(region[m - a] == 58);
        }
        if f == region.len() {
            assert(region[m - a] == 58);
        }
    }
}

} // verus!

verus! {

impl IrcMessage {
    /// Serialize for the wire: prefix (if any), command, parameters with
    /// the last one trailing, and the line terminator.
    pub fn to_bytes(&self) -> (r: Vec<u8>)
        ensures
            r@ == spec_serialize(self@),
    {
        let mut v: Vec<u8> = Vec::new();
        match &self.prefix {
            Option::Some(p) => {
                let mut pb = p.to_bytes();
                v.append(&mut pb);
                v.push(32);
            },
            Option::None => {},
        }
        let ghost head = v@;
        proof {
            assert(head =~= (match self@.prefix {
                Option::Some(p) => spec_prefix_bytes(p) + seq![32u8],
                Option::None => Seq::<u8>::empty(),
            }));
        }
        let mut cb = self.command.to_bytes();
        v.append(&mut cb);
        v.push(32);
        let ghost head2 = v@;
        proof {
            assert(head2 =~= head + spec_command_bytes(self.command) + seq![32u8]);
        }
        match &self.params {
            Option::Some(ps) => {
                let n = ps.0.len();
                let mut i: usize = 0;
                proof {
                    assert(ps.0@.map(|q: int, p: Vec<u8>| p@).skip(0) =~= ps.0@.map(
                        |q: int, p: Vec<u8>| p@,
                    ));
                }
                while i < n
                    invariant
                        n == ps.0@.len(),
                        i <= n,
                        head2 + spec_join_params(ps.0@.map(|q: int, p: Vec<u8>| p@)) == v@
                            + spec_join_params(
                            ps.0@.map(|q: int, p: Vec<u8>| p@).skip(i as int),
                        ),
                    decreases n - i,
                {
                    let ghost words = ps.0@.map(|q: int, p: Vec<u8>| p@);
                    proof {
                        assert(words.skip(i as int)[0] == words[i as int]);
                        assert(words.skip(i as int).drop_first() =~= words.skip(i as int + 1));
                    }
                    if i == n - 1 {
                        v.push(58);
                        crate::adapter::push_bytes(&mut v, ps.0[i].as_slice());
                        proof {
                            assert(words.skip(i as int).len() == 1);
                            assert(spec_join_params(words.skip(i as int)) =~= seq![58u8]
                                + words[i as int]);
                        }
                    } else {
                        crate::adapter::push_bytes(&mut v, ps.0[i].as_slice());
                        v.push(32);
                        proof {
                            assert(words.skip(i as int).len() >= 2);
                            assert(spec_join_params(words.skip(i as int)) =~= words[i as int]
                                + seq![32u8] + spec_join_params(words.skip(i as int + 1)));
                        }
                    }
                    i = i + 1;
                }
                proof {
                    assert(ps.0@.map(|q: int, p: Vec<u8>| p@).skip(n as int)
                        =~= Seq::<Seq<u8>>::empty());
                }
            },
            Option::None => {},
        }
        v.push(13);
        v.push(10);
        proof {
            assert(v@ =~= spec_serialize(self@));
        }
        v
    }
}

/// The buffered line ends in the IRC line terminator.
pub fn last_two_are_crlf(vec: &Vec<u8>) -> (r: bool)
    ensures
        r == (vec@.len() >= 2 && vec@[vec@.len() - 2] == 13 && vec@[vec@.len() - 1] == 10),
{
    let vec_len = vec.len();
    if vec_len < 2 {
        return false;
    }
    vec[vec_len - 2] == 13 && vec[vec_len - 1] == 10
}

/// The sender and payload of a chat message: the prefix's sender name
/// and the second parameter.  Fails with 1 without a prefix, with 3
/// without parameters, and with 2 when the payload parameter is missing.
pub fn privmsg_sender_and_message(msg: &IrcMessage) -> (r: Result<(Vec<u8>, Vec<u8>), u8>)
    ensures
        match msg@.prefix {
            Option::None => r == Err::<(Vec<u8>, Vec<u8>), u8>(1u8),
            Option::Some(pre) => match msg@.params {
                Option::None => r == Err::<(Vec<u8>, Vec<u8>), u8>(3u8),
                Option::Some(ps) => {
                    if ps.len() < 2 {
                        r == Err::<(Vec<u8>, Vec<u8>), u8>(2u8)
                    } else {
                        r matches Ok(out) && out.0@ == pre.servername_nick && out.1@ == ps[1]
                    }
                },
            },
        },
{
    let pre = match &msg.prefix {
        Option::Some(pre) => pre,
        Option::None => {
            return Err(1);
        },
    };
    let ps = match &msg.params {
        Option::Some(ps) => ps,
        Option::None => {
            return Err(3);
        },
    };
    if ps.0.len() < 2 {
        return Err(2);
    }
    let nick = copy_whole(&pre.servername_nick);
    let payload = copy_whole(&ps.0[1]);
    proof {
        assert(msg@.params->0[1] == ps.0@.map(|i: int, p: Vec<u8>| p@)[1]);
    }
    Ok((nick, payload))
}

} // verus!
