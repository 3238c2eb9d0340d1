use vstd::prelude::*;
use crate::options::Options;
use crate::specifier::{OneSpecifierInfo, Specifier, SpecifierType};

verus! {

/// A problem found in a pair of specifiers before anything is connected.
#[derive(Debug, Clone, Copy, PartialEq, Eq, Structural)]
pub enum ConfigurationConcern {
    /// More than one node would own the standard streams.
    StdioConflict,
    /// A connection reuser stands elsewhere than outermost on the right side.
    ReuserMisplaced,
    /// The left side accepts many connections but only the first is served.
    NeedlessMulticonnect,
    /// Both directions are switched off: the session opens and closes at once.
    DegenerateUnidirectional,
}

impl ConfigurationConcern {
    pub open spec fn spec_is_fatal(self) -> bool {
        self == ConfigurationConcern::StdioConflict || self == ConfigurationConcern::ReuserMisplaced
    }

    /// Whether the concern forbids the run, rather than warning of it.
    pub fn is_fatal(&self) -> (r: bool)
        ensures
            r == self.spec_is_fatal(),
    {
        *self == ConfigurationConcern::StdioConflict || *self == ConfigurationConcern::ReuserMisplaced
    }
}

/// How many records of a chain have the type `t`.
pub open spec fn count_type(c: Seq<OneSpecifierInfo>, t: SpecifierType) -> nat
    decreases c.len(),
{
    if c.len() == 0 {
        0
    } else {
        count_type(c.drop_last(), t) + (if c.last().typ == t {
            1nat
        } else {
            0nat
        })
    }
}

/// The concerns raised by a left and a right chain under the given switches,
/// in the order of the rules.
pub open spec fn concerns(
    left: Seq<OneSpecifierInfo>,
    right: Seq<OneSpecifierInfo>,
    oneshot: bool,
    unidirectional: bool,
    unidirectional_reverse: bool,
) -> Seq<ConfigurationConcern> {
    let stdio = count_type(left, SpecifierType::Stdio) + count_type(right, SpecifierType::Stdio);
    let misplaced = count_type(left, SpecifierType::Reuser) > 0 || count_type(
        right.skip(1),
        SpecifierType::Reuser,
    ) > 0;
    let multi = left.len() > 0 && left[0].multiconnect;
    (if stdio > 1 {
        seq![ConfigurationConcern::StdioConflict]
    } else {
        Seq::empty()
    }) + (if misplaced {
        seq![ConfigurationConcern::ReuserMisplaced]
    } else {
        Seq::empty()
    }) + (if multi && oneshot {
        seq![ConfigurationConcern::NeedlessMulticonnect]
    } else {
        Seq::empty()
    }) + (if unidirectional && unidirectional_reverse {
        seq![ConfigurationConcern::DegenerateUnidirectional]
    } else {
        Seq::empty()
    })
}

proof fn lemma_count_type_bounded(c: Seq<OneSpecifierInfo>, t: SpecifierType)
    ensures
        count_type(c, t) <= c.len(),
    decreases c.len(),
{
    if c.len() > 0 {
        lemma_count_type_bounded(c.drop_last(), t);
    }
}

fn count_of_type(v: &Vec<OneSpecifierInfo>, from: usize, t: SpecifierType) -> (r: usize)
    requires
        from <= v@.len(),
    ensures
        r == count_type(v@.skip(from as int), t),
{
    let mut n: usize = 0;
    let mut i: usize = from;
    while i < v.len()
        invariant
            from <= i <= v@.len(),
            n == count_type(v@.subrange(from as int, i as int), t),
        decreases v@.len() - i,
    {
        proof {
            let next = v@.subrange(from as int, i + 1);
            assert(next.drop_last() =~= v@.subrange(from as int, i as int));
            lemma_count_type_bounded(v@.subrange(from as int, i as int), t);
        }
        if v[i].typ == t {
            n = n + 1;
        }
        i = i + 1;
    }
    assert(v@.subrange(from as int, v@.len() as int) =~= v@.skip(from as int));
    n
}

/// Checks a left and a right specifier against the composition rules.
pub fn check_configuration(left: &Specifier, right: &Specifier, opts: &Options) -> (r: Vec<
    ConfigurationConcern,
>)
    ensures
        r@ == concerns(
            left@.info_chain(),
            right@.info_chain(),
            opts.oneshot,
            opts.unidirectional,
            opts.unidirectional_reverse,
        ),
{
    let l = left.get_info().collect();
    let rt = right.get_info().collect();
    let ghost lc = left@.info_chain();
    let ghost rc = right@.info_chain();
    assert(l@.skip(0) =~= lc);
    assert(rt@.skip(0) =~= rc);
    let stdio_l = count_of_type(&l, 0, SpecifierType::Stdio);
    let stdio_r = count_of_type(&rt, 0, SpecifierType::Stdio);
    let reuser_l = count_of_type(&l, 0, SpecifierType::Reuser);
    let reuser_r = if rt.len() > 0 {
        count_of_type(&rt, 1, SpecifierType::Reuser)
    } else {
        0
    };
    proof {
        if rc.len() == 0 {
            assert(rc.skip(1) =~= Seq::<OneSpecifierInfo>::empty());
        }
    }
    let mut r: Vec<ConfigurationConcern> = Vec::new();
    if stdio_l > 1 || stdio_r > 1 || (stdio_l == 1 && stdio_r == 1) {
        r.push(ConfigurationConcern::StdioConflict);
    }
    if reuser_l > 0 || reuser_r > 0 {
        r.push(ConfigurationConcern::ReuserMisplaced);
    }
    if l.len() > 0 && l[0].multiconnect && opts.oneshot {
        r.push(ConfigurationConcern::NeedlessMulticonnect);
    }
    if opts.unidirectional && opts.unidirectional_reverse {
        r.push(ConfigurationConcern::DegenerateUnidirectional);
    }
    assert(r@ =~= concerns(lc, rc, opts.oneshot, opts.unidirectional, opts.unidirectional_reverse));
    r
}

} // verus!
