use vstd::prelude::*;
use crate::specifier::{Specifier, SpecTree, TerminalKind, WrapperKind};

verus! {

/// Any node kind, as named in the textual form.
#[derive(Debug, Clone, Copy, PartialEq, Eq, Structural)]
pub enum NodeKind {
    Terminal(TerminalKind),
    Wrapper(WrapperKind),
}

/// Why a text is not a specifier.
#[derive(Debug, Clone, Copy, PartialEq, Eq, Structural)]
pub enum ParseErrorKind {
    /// No `:` follows the name.
    MissingColon,
    /// The name before the first `:` is not a known endpoint.
    UnknownName,
    /// An endpoint that takes no argument was given one.
    UnexpectedArgument,
    /// A `ws:` or `wss:` address does not continue with `//`.
    MissingSlashes,
}

/// A parse failure with the part of the text that caused it.
#[derive(Debug, Clone, PartialEq, Eq)]
pub struct ParseError {
    pub kind: ParseErrorKind,
    pub offending: Vec<u8>,
}

impl View for ParseError {
    type V = (ParseErrorKind, Seq<u8>);

    open spec fn view(&self) -> (ParseErrorKind, Seq<u8>) {
        (self.kind, self.offending@)
    }
}

/// The name of a node kind in the textual form, as bytes.
pub open spec fn name_of(k: NodeKind) -> Seq<u8> {
    match k {
        NodeKind::Terminal(t) => match t {
            TerminalKind::Tcp => seq![116u8, 99, 112],  // tcp
            TerminalKind::TcpListen => seq![116u8, 99, 112, 45, 108],  // tcp-l
            TerminalKind::Udp => seq![117u8, 100, 112],  // udp
            TerminalKind::UdpListen => seq![117u8, 100, 112, 45, 108],  // udp-l
            TerminalKind::Ws => seq![119u8, 115],  // ws
            TerminalKind::Wss => seq![119u8, 115, 115],  // wss
            TerminalKind::Stdio => seq![115u8, 116, 100, 105, 111],  // stdio
            TerminalKind::Exec => seq![101u8, 120, 101, 99],  // exec
            TerminalKind::Unix => seq![117u8, 110, 105, 120],  // unix
            TerminalKind::UnixListen => seq![117u8, 110, 105, 120, 45, 108],  // unix-l
            TerminalKind::Mirror => seq![109u8, 105, 114, 114, 111, 114],  // mirror
            TerminalKind::LiteralReply => seq![108u8, 105, 116, 101, 114, 97, 108, 114, 101, 112, 108, 121],  // literalreply
            TerminalKind::ThreadedStdio => seq![116u8, 104, 114, 101, 97, 100, 101, 100, 115, 116, 100, 105, 111],  // threadedstdio
        },
        NodeKind::Wrapper(w) => match w {
            WrapperKind::WsUpgrade => seq![119u8, 115, 45, 108, 105, 115, 116, 101, 110],  // ws-listen
            WrapperKind::WsConnect => seq![119u8, 115, 45, 99],  // ws-c
            WrapperKind::AutoReconnect => seq![114u8, 101, 99, 111, 110, 110, 101, 99, 116],  // reconnect
            WrapperKind::Reuser => seq![114u8, 101, 117, 115, 101],  // reuse
        },
    }
}

/// The byte `:` that ends a name.
pub const COLON: u8 = 58;

/// The byte `/` of the `//` after a URL scheme.
pub const SLASH: u8 = 47;

/// Position of the first `:` at or after `i`.
pub open spec fn find_colon(s: Seq<u8>, i: nat) -> Option<nat>
    decreases s.len() - i,
{
    if i >= s.len() {
        None
    } else if s[i as int] == COLON {
        Some(i)
    } else {
        find_colon(s, i + 1)
    }
}

/// Endpoints written with nothing after their `:`.
pub open spec fn takes_no_argument(k: TerminalKind) -> bool {
    k == TerminalKind::Stdio || k == TerminalKind::Mirror || k == TerminalKind::ThreadedStdio
}

/// Endpoints written as URLs: the argument follows `//`.
pub open spec fn is_url(k: TerminalKind) -> bool {
    k == TerminalKind::Ws || k == TerminalKind::Wss
}

pub open spec fn slashes() -> Seq<u8> {
    seq![SLASH, SLASH]
}

/// What a text describes: the name runs to the first `:`, and what follows is
/// the argument of a terminal endpoint or the text of the inner specifier.
pub open spec fn parse_spec(s: Seq<u8>) -> Result<SpecTree, (ParseErrorKind, Seq<u8>)>
    decreases s.len(),
{
    match find_colon(s, 0) {
        None => Err((ParseErrorKind::MissingColon, s)),
        Some(p) => if p >= s.len() {
            Err((ParseErrorKind::MissingColon, s))
        } else {
            let name = s.take(p as int);
            let rest = s.skip(p as int + 1);
            match kind_named(name) {
                None => Err((ParseErrorKind::UnknownName, name)),
                Some(NodeKind::Terminal(k)) => if takes_no_argument(k) && rest.len() > 0 {
                    Err((ParseErrorKind::UnexpectedArgument, rest))
                } else if is_url(k) {
                    if rest.len() >= 2 && rest.take(2) == slashes() {
                        Ok(SpecTree::Terminal(k, rest.skip(2)))
                    } else {
                        Err((ParseErrorKind::MissingSlashes, rest))
                    }
                } else {
                    Ok(SpecTree::Terminal(k, rest))
                },
                Some(NodeKind::Wrapper(k)) => match parse_spec(rest) {
                    Ok(inner) => Ok(SpecTree::Wrapper(k, Box::new(inner))),
                    Err(e) => Err(e),
                },
            }
        },
    }
}

/// The text of a tree: each name followed by `:`, outermost first.
pub open spec fn printed(t: SpecTree) -> Seq<u8>
    decreases t,
{
    match t {
        SpecTree::Terminal(k, a) => name_of(NodeKind::Terminal(k)) + seq![COLON] + (if is_url(k) {
            slashes() + a
        } else {
            a
        }),
        SpecTree::Wrapper(k, inner) => name_of(NodeKind::Wrapper(k)) + seq![COLON] + printed(*inner),
    }
}

/// A tree in the form that the parser produces: endpoints that take no
/// argument carry an empty one.
pub open spec fn canonical(t: SpecTree) -> bool
    decreases t,
{
    match t {
        SpecTree::Terminal(k, a) => takes_no_argument(k) ==> a.len() == 0,
        SpecTree::Wrapper(_, inner) => canonical(*inner),
    }
}

proof fn lemma_find_colon(s: Seq<u8>, i: nat, p: nat)
    requires
        i <= p <= s.len(),
        forall|j: int| i <= j < p ==> s[j] != COLON,
        p < s.len() ==> s[p as int] == COLON,
    ensures
        find_colon(s, i) == (if p < s.len() {
            Some(p)
        } else {
            None::<nat>
        }),
    decreases p - i,
{
    if i < p {
        lemma_find_colon(s, i + 1, p);
    }
}

proof fn lemma_names_have_no_colon(k: NodeKind)
    ensures
        forall|j: int| 0 <= j < name_of(k).len() ==> name_of(k)[j] != COLON,
{
}

/// Reading back the text of a canonical tree gives the same tree.
pub proof fn lemma_parse_print_round_trip(t: SpecTree)
    requires
        canonical(t),
    ensures
        parse_spec(printed(t)) == Ok::<SpecTree, (ParseErrorKind, Seq<u8>)>(t),
    decreases t,
{
    let s = printed(t);
    match t {
        SpecTree::Terminal(k, a) => {
            let nk = NodeKind::Terminal(k);
            let n = name_of(nk);
            let tail = if is_url(k) { slashes() + a } else { a };
            lemma_names_have_no_colon(nk);
            lemma_find_colon(s, 0, n.len());
            lemma_kind_named_inverts_name(nk);
            assert(s.take(n.len() as int) =~= n);
            assert(s.skip(n.len() as int + 1) =~= tail);
            if is_url(k) {
                assert(tail.take(2) =~= slashes());
                assert(tail.skip(2) =~= a);
            }
        },
        SpecTree::Wrapper(k, inner) => {
            let nk = NodeKind::Wrapper(k);
            let n = name_of(nk);
            lemma_names_have_no_colon(nk);
            lemma_find_colon(s, 0, n.len());
            lemma_kind_named_inverts_name(nk);
            assert(s.take(n.len() as int) =~= n);
            assert(s.skip(n.len() as int + 1) =~= printed(*inner));
            lemma_parse_print_round_trip(*inner);
        },
    }
}

/// The name of a node kind as bytes.
pub fn name_bytes(k: NodeKind) -> (r: Vec<u8>)
    ensures
        r@ == name_of(k),
{
    match k {
        NodeKind::Terminal(TerminalKind::Tcp) => vec![116u8, 99, 112],
        NodeKind::Terminal(TerminalKind::TcpListen) => vec![116u8, 99, 112, 45, 108],
        NodeKind::Terminal(TerminalKind::Udp) => vec![117u8, 100, 112],
        NodeKind::Terminal(TerminalKind::UdpListen) => vec![117u8, 100, 112, 45, 108],
        NodeKind::Terminal(TerminalKind::Ws) => vec![119u8, 115],
        NodeKind::Terminal(TerminalKind::Wss) => vec![119u8, 115, 115],
        NodeKind::Terminal(TerminalKind::Stdio) => vec![115u8, 116, 100, 105, 111],
        NodeKind::Terminal(TerminalKind::Exec) => vec![101u8, 120, 101, 99],
        NodeKind::Terminal(TerminalKind::Unix) => vec![117u8, 110, 105, 120],
        NodeKind::Terminal(TerminalKind::UnixListen) => vec![117u8, 110, 105, 120, 45, 108],
        NodeKind::Terminal(TerminalKind::Mirror) => vec![109u8, 105, 114, 114, 111, 114],
        NodeKind::Terminal(TerminalKind::LiteralReply) => vec![108u8, 105, 116, 101, 114, 97, 108, 114, 101, 112, 108, 121],
        NodeKind::Terminal(TerminalKind::ThreadedStdio) => vec![116u8, 104, 114, 101, 97, 100, 101, 100, 115, 116, 100, 105, 111],
        NodeKind::Wrapper(WrapperKind::WsUpgrade) => vec![119u8, 115, 45, 108, 105, 115, 116, 101, 110],
        NodeKind::Wrapper(WrapperKind::WsConnect) => vec![119u8, 115, 45, 99],
        NodeKind::Wrapper(WrapperKind::AutoReconnect) => vec![114u8, 101, 99, 111, 110, 110, 101, 99, 116],
        NodeKind::Wrapper(WrapperKind::Reuser) => vec![114u8, 101, 117, 115, 101],
    }
}

/// The node kind whose name is `name`, if any.
pub open spec fn kind_named(name: Seq<u8>) -> Option<NodeKind> {
    if name == name_of(NodeKind::Terminal(TerminalKind::Tcp)) {
        Some(NodeKind::Terminal(TerminalKind::Tcp))
    } else if name == name_of(NodeKind::Terminal(TerminalKind::TcpListen)) {
        Some(NodeKind::Terminal(TerminalKind::TcpListen))
    } else if name == name_of(NodeKind::Terminal(TerminalKind::Udp)) {
        Some(NodeKind::Terminal(TerminalKind::Udp))
    } else if name == name_of(NodeKind::Terminal(TerminalKind::UdpListen)) {
        Some(NodeKind::Terminal(TerminalKind::UdpListen))
    } else if name == name_of(NodeKind::Terminal(TerminalKind::Ws)) {
        Some(NodeKind::Terminal(TerminalKind::Ws))
    } else if name == name_of(NodeKind::Terminal(TerminalKind::Wss)) {
        Some(NodeKind::Terminal(TerminalKind::Wss))
    } else if name == name_of(NodeKind::Terminal(TerminalKind::Stdio)) {
        Some(NodeKind::Terminal(TerminalKind::Stdio))
    } else if name == name_of(NodeKind::Terminal(TerminalKind::Exec)) {
        Some(NodeKind::Terminal(TerminalKind::Exec))
    } else if name == name_of(NodeKind::Terminal(TerminalKind::Unix)) {
        Some(NodeKind::Terminal(TerminalKind::Unix))
    } else if name == name_of(NodeKind::Terminal(TerminalKind::UnixListen)) {
        Some(NodeKind::Terminal(TerminalKind::UnixListen))
    } else if name == name_of(NodeKind::Terminal(TerminalKind::Mirror)) {
        Some(NodeKind::Terminal(TerminalKind::Mirror))
    } else if name == name_of(NodeKind::Terminal(TerminalKind::LiteralReply)) {
        Some(NodeKind::Terminal(TerminalKind::LiteralReply))
    } else if name == name_of(NodeKind::Terminal(TerminalKind::ThreadedStdio)) {
        Some(NodeKind::Terminal(TerminalKind::ThreadedStdio))
    } else if name == name_of(NodeKind::Wrapper(WrapperKind::WsUpgrade)) {
        Some(NodeKind::Wrapper(WrapperKind::WsUpgrade))
    } else if name == name_of(NodeKind::Wrapper(WrapperKind::WsConnect)) {
        Some(NodeKind::Wrapper(WrapperKind::WsConnect))
    } else if name == name_of(NodeKind::Wrapper(WrapperKind::AutoReconnect)) {
        Some(NodeKind::Wrapper(WrapperKind::AutoReconnect))
    } else if name == name_of(NodeKind::Wrapper(WrapperKind::Reuser)) {
        Some(NodeKind::Wrapper(WrapperKind::Reuser))
    } else {
        None
    }
}

/// Every kind is found again under its own name.
pub proof fn lemma_kind_named_inverts_name(k: NodeKind)
    ensures
        kind_named(name_of(k)) == Some(k),
{
    assert forall|j: NodeKind| name_of(j) == name_of(k) implies j == k by {
        assert(name_of(j).len() == name_of(k).len());
        assert(name_of(j)[0] == name_of(k)[0]);
        assert(name_of(j)[1] == name_of(k)[1]);
    }
}

fn segment_eq(s: &[u8], start: usize, end: usize, name: &Vec<u8>) -> (r: bool)
    requires
        start <= end <= s@.len(),
    ensures
        r == (s@.subrange(start as int, end as int) == name@),
{
    if end - start != name.len() {
        return false;
    }
    let mut i: usize = 0;
    while i < name.len()
        invariant
            end - start == name@.len(),
            start <= end <= s@.len(),
            i <= name@.len(),
            forall|j: int| 0 <= j < i ==> s@[start + j] == name@[j],
        decreases name@.len() - i,
    {
        if s[start + i] != name[i] {
            assert(s@.subrange(start as int, end as int)[i as int] != name@[i as int]);
            return false;
        }
        i = i + 1;
    }
    assert(s@.subrange(start as int, end as int) =~= name@);
    true
}

/// Looks up the kind named by `s[start..end]`.
fn lookup_kind(s: &[u8], start: usize, end: usize) -> (r: Option<NodeKind>)
    requires
        start <= end <= s@.len(),
    ensures
        r == kind_named(s@.subrange(start as int, end as int)),
{
    if segment_eq(s, start, end, &name_bytes(NodeKind::Terminal(TerminalKind::Tcp))) {
        return Some(NodeKind::Terminal(TerminalKind::Tcp));
    }
    if segment_eq(s, start, end, &name_bytes(NodeKind::Terminal(TerminalKind::TcpListen))) {
        return Some(NodeKind::Terminal(TerminalKind::TcpListen));
    }
    if segment_eq(s, start, end, &name_bytes(NodeKind::Terminal(TerminalKind::Udp))) {
        return Some(NodeKind::Terminal(TerminalKind::Udp));
    }
    if segment_eq(s, start, end, &name_bytes(NodeKind::Terminal(TerminalKind::UdpListen))) {
        return Some(NodeKind::Terminal(TerminalKind::UdpListen));
    }
    if segment_eq(s, start, end, &name_bytes(NodeKind::Terminal(TerminalKind::Ws))) {
        return Some(NodeKind::Terminal(TerminalKind::Ws));
    }
    if segment_eq(s, start, end, &name_bytes(NodeKind::Terminal(TerminalKind::Wss))) {
        return Some(NodeKind::Terminal(TerminalKind::Wss));
    }
    if segment_eq(s, start, end, &name_bytes(NodeKind::Terminal(TerminalKind::Stdio))) {
        return Some(NodeKind::Terminal(TerminalKind::Stdio));
    }
    if segment_eq(s, start, end, &name_bytes(NodeKind::Terminal(TerminalKind::Exec))) {
        return Some(NodeKind::Terminal(TerminalKind::Exec));
    }
    if segment_eq(s, start, end, &name_bytes(NodeKind::Terminal(TerminalKind::Unix))) {
        return Some(NodeKind::Terminal(TerminalKind::Unix));
    }
    if segment_eq(s, start, end, &name_bytes(NodeKind::Terminal(TerminalKind::UnixListen))) {
        return Some(NodeKind::Terminal(TerminalKind::UnixListen));
    }
    if segment_eq(s, start, end, &name_bytes(NodeKind::Terminal(TerminalKind::Mirror))) {
        return Some(NodeKind::Terminal(TerminalKind::Mirror));
    }
    if segment_eq(s, start, end, &name_bytes(NodeKind::Terminal(TerminalKind::LiteralReply))) {
        return Some(NodeKind::Terminal(TerminalKind::LiteralReply));
    }
    if segment_eq(s, start, end, &name_bytes(NodeKind::Terminal(TerminalKind::ThreadedStdio))) {
        return Some(NodeKind::Terminal(TerminalKind::ThreadedStdio));
    }
    if segment_eq(s, start, end, &name_bytes(NodeKind::Wrapper(WrapperKind::WsUpgrade))) {
        return Some(NodeKind::Wrapper(WrapperKind::WsUpgrade));
    }
    if segment_eq(s, start, end, &name_bytes(NodeKind::Wrapper(WrapperKind::WsConnect))) {
        return Some(NodeKind::Wrapper(WrapperKind::WsConnect));
    }
    if segment_eq(s, start, end, &name_bytes(NodeKind::Wrapper(WrapperKind::AutoReconnect))) {
        return Some(NodeKind::Wrapper(WrapperKind::AutoReconnect));
    }
    if segment_eq(s, start, end, &name_bytes(NodeKind::Wrapper(WrapperKind::Reuser))) {
        return Some(NodeKind::Wrapper(WrapperKind::Reuser));
    }
    None
}

fn copy_range(s: &[u8], start: usize, end: usize) -> (r: Vec<u8>)
    requires
        start <= end <= s@.len(),
    ensures
        r@ == s@.subrange(start as int, end as int),
{
    let mut r: Vec<u8> = Vec::new();
    let mut i: usize = start;
    while i < end
        invariant
            start <= i <= end <= s@.len(),
            r@ =~= s@.subrange(start as int, i as int),
        decreases end - i,
    {
        r.push(s[i]);
        i = i + 1;
    }
    r
}

fn parse_from(s: &[u8], start: usize) -> (r: Result<Specifier, ParseError>)
    requires
        start <= s@.len(),
    ensures
        match r {
            Ok(t) => parse_spec(s@.skip(start as int)) == Ok::<SpecTree, (ParseErrorKind, Seq<u8>)>(t@),
            Err(e) => parse_spec(s@.skip(start as int)) == Err::<SpecTree, (ParseErrorKind, Seq<u8>)>(e@),
        },
    decreases s@.len() - start,
{
    let ghost sub = s@.skip(start as int);
    let mut i: usize = start;
    while i < s.len() && s[i] != COLON
        invariant
            start <= i <= s@.len(),
            forall|j: int| start <= j < i ==> s@[j] != COLON,
        decreases s@.len() - i,
    {
        i = i + 1;
    }
    proof {
        lemma_find_colon(sub, 0, (i - start) as nat);
    }
    if i == s.len() {
        return Err(ParseError { kind: ParseErrorKind::MissingColon, offending: copy_range(s, start, s.len()) });
    }
    assert(sub.take(i - start) =~= s@.subrange(start as int, i as int));
    assert(sub.skip(i - start + 1) =~= s@.skip(i + 1));
    match lookup_kind(s, start, i) {
        None => Err(ParseError { kind: ParseErrorKind::UnknownName, offending: copy_range(s, start, i) }),
        Some(NodeKind::Terminal(k)) => {
            let arg_start = i + 1;
            let rest_len = s.len() - arg_start;
            let no_arg = k == TerminalKind::Stdio || k == TerminalKind::Mirror || k == TerminalKind::ThreadedStdio;
            if no_arg && rest_len > 0 {
                assert(s@.skip(i + 1) =~= s@.subrange(arg_start as int, s@.len() as int));
                return Err(ParseError {
                    kind: ParseErrorKind::UnexpectedArgument,
                    offending: copy_range(s, arg_start, s.len()),
                });
            }
            if k == TerminalKind::Ws || k == TerminalKind::Wss {
                if rest_len >= 2 && s[arg_start] == SLASH && s[arg_start + 1] == SLASH {
                    assert(s@.skip(i + 1).take(2) =~= slashes());
                    assert(s@.skip(i + 1).skip(2) =~= s@.subrange(arg_start + 2, s@.len() as int));
                    Ok(Specifier::Terminal(k, copy_range(s, arg_start + 2, s.len())))
                } else {
                    assert(s@.skip(i + 1) =~= s@.subrange(arg_start as int, s@.len() as int));
                    assert(rest_len >= 2 ==> s@.skip(i + 1).take(2)[0] == s@[arg_start as int]);
                    assert(rest_len >= 2 ==> s@.skip(i + 1).take(2)[1] == s@[arg_start + 1]);
                    Err(ParseError {
                        kind: ParseErrorKind::MissingSlashes,
                        offending: copy_range(s, arg_start, s.len()),
                    })
                }
            } else {
                assert(s@.skip(i + 1) =~= s@.subrange(arg_start as int, s@.len() as int));
                Ok(Specifier::Terminal(k, copy_range(s, arg_start, s.len())))
            }
        },
        Some(NodeKind::Wrapper(k)) => {
            match parse_from(s, i + 1) {
                Ok(inner) => Ok(Specifier::Wrapper(k, Box::new(inner))),
                Err(e) => Err(e),
            }
        },
    }
}

/// Parses the textual form of an endpoint, for example `ws-listen:tcp-l:127.0.0.1:8080`.
pub fn parse_specifier(s: &[u8]) -> (r: Result<Specifier, ParseError>)
    ensures
        match r {
            Ok(t) => parse_spec(s@) == Ok::<SpecTree, (ParseErrorKind, Seq<u8>)>(t@),
            Err(e) => parse_spec(s@) == Err::<SpecTree, (ParseErrorKind, Seq<u8>)>(e@),
        },
{
    assert(s@.skip(0) =~= s@);
    parse_from(s, 0)
}

impl Specifier {
    fn print_into(&self, out: &mut Vec<u8>)
        ensures
            final(out)@ == old(out)@ + printed(self@),
        decreases self,
    {
        match self {
            Specifier::Terminal(k, a) => {
                let mut name = name_bytes(NodeKind::Terminal(*k));
                out.append(&mut name);
                out.push(COLON);
                if *k == TerminalKind::Ws || *k == TerminalKind::Wss {
                    out.push(SLASH);
                    out.push(SLASH);
                }
                let mut i: usize = 0;
                let ghost before = out@;
                while i < a.len()
                    invariant
                        i <= a@.len(),
                        out@ =~= before + a@.take(i as int),
                    decreases a@.len() - i,
                {
                    out.push(a[i]);
                    i = i + 1;
                }
                assert(a@.take(a@.len() as int) =~= a@);
                assert(out@ =~= old(out)@ + printed(self@));
            },
            Specifier::Wrapper(k, inner) => {
                let mut name = name_bytes(NodeKind::Wrapper(*k));
                out.append(&mut name);
                out.push(COLON);
                inner.print_into(out);
                assert(out@ =~= old(out)@ + printed(self@));
            },
        }
    }

    /// The textual form of this specifier.
    pub fn print(&self) -> (r: Vec<u8>)
        ensures
            r@ == printed(self@),
    {
        let mut r: Vec<u8> = Vec::new();
        self.print_into(&mut r);
        assert(r@ =~= printed(self@));
        r
    }
}

} // verus!
