use vstd::prelude::*;

verus! {

/// The shape a command expects an argument to have. Both shapes are carried
/// by a token's text; the shape is documentation for binding and usage.
#[derive(Clone, Copy, PartialEq, Eq, Structural, Debug)]
pub enum SyntaxShape {
    Path,
    Text,
}

/// A required positional parameter.
#[derive(Debug)]
pub struct PositionalArg {
    pub name: String,
    pub shape: SyntaxShape,
    pub desc: String,
}

/// An optional named parameter taking a value, with an optional short form.
#[derive(Debug)]
pub struct NamedArg {
    pub name: String,
    pub shape: SyntaxShape,
    pub desc: String,
    pub short: Option<char>,
}

/// A boolean switch, with an optional short form.
#[derive(Debug)]
pub struct SwitchArg {
    pub name: String,
    pub desc: String,
    pub short: Option<char>,
}

/// The static argument surface of one command: its name, its required
/// positional parameters, its named parameters and its switches.
#[derive(Debug)]
pub struct Signature {
    pub name: String,
    pub positional: Vec<PositionalArg>,
    pub named: Vec<NamedArg>,
    pub switches: Vec<SwitchArg>,
}

/// Every parameter name of the signature, in declaration order.
pub open spec fn sig_names(sig: Signature) -> Seq<Seq<char>> {
    sig.positional@.map_values(|p: PositionalArg| p.name@) + sig.named@.map_values(
        |p: NamedArg| p.name@,
    ) + sig.switches@.map_values(|p: SwitchArg| p.name@)
}

/// Parameter names are unique within a signature.
pub open spec fn sig_wf(sig: Signature) -> bool {
    forall|i: int, j: int|
        0 <= i < j < sig_names(sig).len() ==> sig_names(sig)[i] != sig_names(sig)[j]
}

impl Signature {
    pub fn build(name: String) -> (s: Signature)
        ensures
            s.name@ == name@,
            s.positional@.len() == 0,
            s.named@.len() == 0,
            s.switches@.len() == 0,
    {
        Signature { name, positional: Vec::new(), named: Vec::new(), switches: Vec::new() }
    }

    pub fn required(self, name: String, shape: SyntaxShape, desc: String) -> (s: Signature)
        ensures
            s.name == self.name,
            s.positional@ == self.positional@.push(PositionalArg { name, shape, desc }),
            s.named == self.named,
            s.switches == self.switches,
    {
        let mut positional = self.positional;
        positional.push(PositionalArg { name, shape, desc });
        Signature { name: self.name, positional, named: self.named, switches: self.switches }
    }

    pub fn named_arg(self, name: String, shape: SyntaxShape, desc: String, short: Option<char>)
        -> (s: Signature)
        ensures
            s.name == self.name,
            s.positional == self.positional,
            s.named@ == self.named@.push(NamedArg { name, shape, desc, short }),
            s.switches == self.switches,
    {
        let mut named = self.named;
        named.push(NamedArg { name, shape, desc, short });
        Signature { name: self.name, positional: self.positional, named, switches: self.switches }
    }

    pub fn switch(self, name: String, desc: String, short: Option<char>) -> (s: Signature)
        ensures
            s.name == self.name,
            s.positional == self.positional,
            s.named == self.named,
            s.switches@ == self.switches@.push(SwitchArg { name, desc, short }),
    {
        let mut switches = self.switches;
        switches.push(SwitchArg { name, desc, short });
        Signature { name: self.name, positional: self.positional, named: self.named, switches }
    }
}

pub open spec fn has_switch(sig: Signature, name: Seq<char>) -> bool {
    exists|k: int| 0 <= k < sig.switches@.len() && sig.switches@[k].name@ == name
}

pub open spec fn has_named(sig: Signature, name: Seq<char>) -> bool {
    exists|k: int| 0 <= k < sig.named@.len() && sig.named@[k].name@ == name
}

/// The long name of the first switch carrying the given short form.
pub open spec fn find_short_switch(sw: Seq<SwitchArg>, c: char) -> Option<Seq<char>>
    decreases sw.len(),
{
    if sw.len() == 0 {
        None
    } else if sw[0].short == Some(c) {
        Some(sw[0].name@)
    } else {
        find_short_switch(sw.drop_first(), c)
    }
}

/// The long name of the first named parameter carrying the given short form.
pub open spec fn find_short_named(nm: Seq<NamedArg>, c: char) -> Option<Seq<char>>
    decreases nm.len(),
{
    if nm.len() == 0 {
        None
    } else if nm[0].short == Some(c) {
        Some(nm[0].name@)
    } else {
        find_short_named(nm.drop_first(), c)
    }
}

pub fn switch_exists(sig: &Signature, name: &String) -> (b: bool)
    ensures
        b == has_switch(*sig, name@),
{
    let n = sig.switches.len();
    let mut i: usize = 0;
    while i < n
        invariant
            0 <= i <= n,
            n == sig.switches@.len(),
            forall|k: int| 0 <= k < i ==> sig.switches@[k].name@ != name@,
        decreases n - i,
    {
        if sig.switches[i].name == *name {
            return true;
        }
        i = i + 1;
    }
    false
}

pub fn named_exists(sig: &Signature, name: &String) -> (b: bool)
    ensures
        b == has_named(*sig, name@),
{
    let n = sig.named.len();
    let mut i: usize = 0;
    while i < n
        invariant
            0 <= i <= n,
            n == sig.named@.len(),
            forall|k: int| 0 <= k < i ==> sig.named@[k].name@ != name@,
        decreases n - i,
    {
        if sig.named[i].name == *name {
            return true;
        }
        i = i + 1;
    }
    false
}

pub fn short_switch(sig: &Signature, c: char) -> (r: Option<String>)
    ensures
        match r {
            Option::Some(name) => find_short_switch(sig.switches@, c) == Some(name@),
            Option::None => find_short_switch(sig.switches@, c) is None,
        },
{
    let n = sig.switches.len();
    let mut i: usize = 0;
    proof {
        assert(sig.switches@.skip(0) =~= sig.switches@);
    }
    while i < n
        invariant
            0 <= i <= n,
            n == sig.switches@.len(),
            find_short_switch(sig.switches@, c) == find_short_switch(sig.switches@.skip(i as int), c),
        decreases n - i,
    {
        proof {
            assert(sig.switches@.skip(i as int)[0] == sig.switches@[i as int]);
            assert(sig.switches@.skip(i as int).drop_first() =~= sig.switches@.skip(i + 1));
        }
        let is_match = match sig.switches[i].short {
            Some(sc) => sc == c,
            None => false,
        };
        if is_match {
            return Some(sig.switches[i].name.clone());
        }
        i = i + 1;
    }
    proof {
        assert(sig.switches@.skip(n as int) =~= Seq::<SwitchArg>::empty());
    }
    None
}

pub fn short_named(sig: &Signature, c: char) -> (r: Option<String>)
    ensures
        match r {
            Option::Some(name) => find_short_named(sig.named@, c) == Some(name@),
            Option::None => find_short_named(sig.named@, c) is None,
        },
{
    let n = sig.named.len();
    let mut i: usize = 0;
    proof {
        assert(sig.named@.skip(0) =~= sig.named@);
    }
    while i < n
        invariant
            0 <= i <= n,
            n == sig.named@.len(),
            find_short_named(sig.named@, c) == find_short_named(sig.named@.skip(i as int), c),
        decreases n - i,
    {
        proof {
            assert(sig.named@.skip(i as int)[0] == sig.named@[i as int]);
            assert(sig.named@.skip(i as int).drop_first() =~= sig.named@.skip(i + 1));
        }
        let is_match = match sig.named[i].short {
            Some(sc) => sc == c,
            None => false,
        };
        if is_match {
            return Some(sig.named[i].name.clone());
        }
        i = i + 1;
    }
    proof {
        assert(sig.named@.skip(n as int) =~= Seq::<NamedArg>::empty());
    }
    None
}

} // verus!
