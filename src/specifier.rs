use vstd::prelude::*;

verus! {

/// Coarse classification of a specifier node, for the lints.
#[derive(Debug, Clone, Copy, PartialEq, Eq, Structural)]
pub enum SpecifierType {
    Stdio,
    Reuser,
    Other,
}

/// What one node of a specifier tree says of itself.
#[derive(Debug, Clone, Copy, PartialEq, Eq, Structural)]
pub struct OneSpecifierInfo {
    pub multiconnect: bool,
    pub uses_global_state: bool,
    pub typ: SpecifierType,
}

/// Introspection of a specifier tree: a chain from the outermost node inwards.
#[derive(Debug)]
pub struct SpecifierInfo {
    pub this: OneSpecifierInfo,
    pub subspecifier: Option<Box<SpecifierInfo>>,
}

impl Clone for SpecifierInfo {
    fn clone(&self) -> (r: Self)
        ensures
            r.chain() == self.chain(),
    {
        self.duplicate()
    }
}

impl SpecifierInfo {
    fn duplicate(&self) -> (r: Self)
        ensures
            r.chain() == self.chain(),
        decreases self,
    {
        match &self.subspecifier {
            Some(sub) => SpecifierInfo { this: self.this, subspecifier: Some(Box::new(sub.duplicate())) },
            None => SpecifierInfo { this: self.this, subspecifier: None },
        }
    }

    /// The chain of records, outermost first.
    pub open spec fn chain(&self) -> Seq<OneSpecifierInfo>
        decreases self,
    {
        match self.subspecifier {
            Some(sub) => seq![self.this] + sub.chain(),
            None => seq![self.this],
        }
    }

    fn collect_into(&self, r: &mut Vec<OneSpecifierInfo>)
        ensures
            final(r)@ == old(r)@ + self.chain(),
        decreases self,
    {
        r.push(self.this);
        match &self.subspecifier {
            Some(sub) => {
                sub.collect_into(r);
                assert(r@ =~= old(r)@ + self.chain());
            },
            None => {
                assert(r@ =~= old(r)@ + self.chain());
            },
        }
    }

    /// Flattens the chain into a list, outermost first.
    pub fn collect(&self) -> (r: Vec<OneSpecifierInfo>)
        ensures
            r@ == self.chain(),
    {
        let mut r: Vec<OneSpecifierInfo> = Vec::new();
        self.collect_into(&mut r);
        assert(r@ =~= self.chain());
        r
    }
}

/// Endpoints that take an argument (or none) and wrap nothing.
#[derive(Debug, Clone, Copy, PartialEq, Eq, Structural)]
pub enum TerminalKind {
    /// `tcp:host:port`
    Tcp,
    /// `tcp-l:host:port`
    TcpListen,
    /// `udp:host:port`
    Udp,
    /// `udp-l:host:port`
    UdpListen,
    /// `ws://host/path`
    Ws,
    /// `wss://host/path`
    Wss,
    /// `stdio:`
    Stdio,
    /// `exec:command`
    Exec,
    /// `unix:path`
    Unix,
    /// `unix-l:path`
    UnixListen,
    /// `mirror:`
    Mirror,
    /// `literalreply:text`
    LiteralReply,
    /// `threadedstdio:`
    ThreadedStdio,
}

/// Endpoints that wrap an inner specifier.
#[derive(Debug, Clone, Copy, PartialEq, Eq, Structural)]
pub enum WrapperKind {
    /// `ws-listen:inner`: server-side WebSocket upgrade of each inner connection.
    WsUpgrade,
    /// `ws-c:inner`: client-side WebSocket handshake over the inner connection.
    WsConnect,
    /// `reconnect:inner`: reopens the inner connection when it ends.
    AutoReconnect,
    /// `reuse:inner`: shares one inner connection across outer ones.
    Reuser,
}

/// A parsed endpoint description, for example `ws-listen:tcp-l:127.0.0.1:8080`
/// is `Wrapper(WsUpgrade, Terminal(TcpListen, "127.0.0.1:8080"))`.
#[derive(Debug, PartialEq, Eq)]
pub enum Specifier {
    Terminal(TerminalKind, Vec<u8>),
    Wrapper(WrapperKind, Box<Specifier>),
}

/// The mathematical form of a specifier tree.
pub enum SpecTree {
    Terminal(TerminalKind, Seq<u8>),
    Wrapper(WrapperKind, Box<SpecTree>),
}

impl Specifier {
    /// The tree that this specifier describes.
    pub open spec fn tree(&self) -> SpecTree
        decreases self,
    {
        match self {
            Specifier::Terminal(k, a) => SpecTree::Terminal(*k, a@),
            Specifier::Wrapper(k, inner) => SpecTree::Wrapper(*k, Box::new(inner.tree())),
        }
    }
}

impl Clone for Specifier {
    fn clone(&self) -> (r: Self)
        ensures
            r@ == self@,
    {
        self.duplicate()
    }
}

impl Specifier {
    fn duplicate(&self) -> (r: Self)
        ensures
            r@ == self@,
        decreases self,
    {
        match self {
            Specifier::Terminal(k, a) => Specifier::Terminal(*k, a.clone()),
            Specifier::Wrapper(k, inner) => Specifier::Wrapper(*k, Box::new(inner.duplicate())),
        }
    }
}

impl View for Specifier {
    type V = SpecTree;

    open spec fn view(&self) -> SpecTree {
        self.tree()
    }
}

pub open spec fn terminal_multiconnect(k: TerminalKind) -> bool {
    k == TerminalKind::TcpListen || k == TerminalKind::UnixListen
}

pub open spec fn terminal_type(k: TerminalKind) -> SpecifierType {
    if k == TerminalKind::Stdio || k == TerminalKind::ThreadedStdio {
        SpecifierType::Stdio
    } else {
        SpecifierType::Other
    }
}

pub open spec fn wrapper_type(k: WrapperKind) -> SpecifierType {
    if k == WrapperKind::Reuser {
        SpecifierType::Reuser
    } else {
        SpecifierType::Other
    }
}

/// Upgraders inherit multi-connectness from the inner node; the others serve one connection.
pub open spec fn wrapper_proxies_multiconnect(k: WrapperKind) -> bool {
    k == WrapperKind::WsUpgrade || k == WrapperKind::WsConnect
}

impl SpecTree {
    pub open spec fn multiconnect(self) -> bool
        decreases self,
    {
        match self {
            SpecTree::Terminal(k, _) => terminal_multiconnect(k),
            SpecTree::Wrapper(k, inner) => wrapper_proxies_multiconnect(k) && inner.multiconnect(),
        }
    }

    pub open spec fn uses_global_state(self) -> bool {
        match self {
            SpecTree::Terminal(k, _) => k == TerminalKind::Stdio,
            SpecTree::Wrapper(k, _) => k == WrapperKind::Reuser,
        }
    }

    pub open spec fn typ(self) -> SpecifierType {
        match self {
            SpecTree::Terminal(k, _) => terminal_type(k),
            SpecTree::Wrapper(k, _) => wrapper_type(k),
        }
    }

    pub open spec fn own_info(self) -> OneSpecifierInfo {
        OneSpecifierInfo {
            multiconnect: self.multiconnect(),
            uses_global_state: self.uses_global_state(),
            typ: self.typ(),
        }
    }

    /// Number of nodes from the root to the leaf.
    pub open spec fn depth(self) -> nat
        decreases self,
    {
        match self {
            SpecTree::Terminal(_, _) => 1,
            SpecTree::Wrapper(_, inner) => 1 + inner.depth(),
        }
    }

    /// The node `i` steps below the root.
    pub open spec fn node_at(self, i: nat) -> SpecTree
        decreases i,
    {
        if i == 0 {
            self
        } else {
            match self {
                SpecTree::Terminal(_, _) => self,
                SpecTree::Wrapper(_, inner) => inner.node_at((i - 1) as nat),
            }
        }
    }

    /// The introspection records of the tree, root first.
    pub open spec fn info_chain(self) -> Seq<OneSpecifierInfo>
        decreases self,
    {
        match self {
            SpecTree::Terminal(_, _) => seq![self.own_info()],
            SpecTree::Wrapper(_, inner) => seq![self.own_info()] + inner.info_chain(),
        }
    }
}

/// The flattened introspection of a tree has one record per level, and the
/// record at position `i` describes the node `i` steps below the root.
pub proof fn lemma_info_chain_follows_tree(t: SpecTree)
    ensures
        t.info_chain().len() == t.depth(),
        forall|i: nat| i < t.depth() ==> #[trigger] t.info_chain()[i as int] == t.node_at(i).own_info(),
    decreases t,
{
    match t {
        SpecTree::Terminal(_, _) => {},
        SpecTree::Wrapper(_, inner) => {
            lemma_info_chain_follows_tree(*inner);
            assert forall|i: nat| i < t.depth() implies #[trigger] t.info_chain()[i as int] == t.node_at(
                i,
            ).own_info() by {
                if i > 0 {
                    assert(t.info_chain()[i as int] == inner.info_chain()[(i - 1) as int]);
                    assert(inner.info_chain()[((i - 1) as nat) as int] == inner.node_at(
                        (i - 1) as nat,
                    ).own_info());
                }
            }
        },
    }
}

/// The flattened introspection of a specifier is exactly as deep as the tree,
/// with entries from the root to the leaf.
pub proof fn lemma_collect_has_tree_depth(s: Specifier, info: SpecifierInfo)
    requires
        info.chain() == s@.info_chain(),
    ensures
        info.chain().len() == s@.depth(),
        forall|i: nat| i < s@.depth() ==> #[trigger] info.chain()[i as int] == s@.node_at(i).own_info(),
{
    lemma_info_chain_follows_tree(s@);
}

impl Specifier {
    /// Whether constructing this node yields a stream of connections.
    pub fn is_multiconnect(&self) -> (r: bool)
        ensures
            r == self@.multiconnect(),
        decreases self,
    {
        match self {
            Specifier::Terminal(k, _) => *k == TerminalKind::TcpListen || *k == TerminalKind::UnixListen,
            Specifier::Wrapper(k, inner) => {
                (*k == WrapperKind::WsUpgrade || *k == WrapperKind::WsConnect) && inner.is_multiconnect()
            },
        }
    }

    /// Whether this node reads or changes process-wide state.
    pub fn uses_global_state(&self) -> (r: bool)
        ensures
            r == self@.uses_global_state(),
    {
        match self {
            Specifier::Terminal(k, _) => *k == TerminalKind::Stdio,
            Specifier::Wrapper(k, _) => *k == WrapperKind::Reuser,
        }
    }

    pub fn get_type(&self) -> (r: SpecifierType)
        ensures
            r == self@.typ(),
    {
        match self {
            Specifier::Terminal(k, _) => {
                if *k == TerminalKind::Stdio || *k == TerminalKind::ThreadedStdio {
                    SpecifierType::Stdio
                } else {
                    SpecifierType::Other
                }
            },
            Specifier::Wrapper(k, _) => {
                if *k == WrapperKind::Reuser {
                    SpecifierType::Reuser
                } else {
                    SpecifierType::Other
                }
            },
        }
    }

    pub fn get_info_without_subspecs(&self) -> (r: OneSpecifierInfo)
        ensures
            r == self@.own_info(),
    {
        OneSpecifierInfo {
            multiconnect: self.is_multiconnect(),
            uses_global_state: self.uses_global_state(),
            typ: self.get_type(),
        }
    }

    /// Introspection of the whole tree, root first.
    pub fn get_info(&self) -> (r: SpecifierInfo)
        ensures
            r.chain() == self@.info_chain(),
        decreases self,
    {
        let this = self.get_info_without_subspecs();
        match self {
            Specifier::Terminal(_, _) => SpecifierInfo { this, subspecifier: None },
            Specifier::Wrapper(_, inner) => {
                let sub = inner.get_info();
                SpecifierInfo { this, subspecifier: Some(Box::new(sub)) }
            },
        }
    }
}

} // verus!
