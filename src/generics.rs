//! Generic-parameter clauses for a generated implementation.
//!
//! From a type's parameter list and the name of a capability contract, two
//! clauses are rendered in declaration order: one where each type parameter is
//! also bounded by the contract, and one with the bare names. A parameter named
//! `Self` stands for the type being implemented and appears in neither.

use vstd::prelude::*;

verus! {

/// One generic parameter of a declaration.
pub enum Generic {
    /// A lifetime such as `'a`, with the lifetimes it outlives.
    Lifetime { name: String, bounds: Vec<String> },
    /// A type parameter, with the bounds written on it.
    Type { name: String, bounds: Vec<String> },
    /// A const parameter and its type.
    Const { name: String, ty: String },
}

/// A record type: its name and its parameter list.
pub struct Struct {
    pub name: String,
    pub generics: Vec<Generic>,
}

/// A tagged-union type: its name and its parameter list.
pub struct Enum {
    pub name: String,
    pub generics: Vec<Generic>,
}

/// The namespace that qualifies the contract in an injected bound.
pub const CONTRACT_NAMESPACE: &'static str = "nanoserde::";

/// The name that stands for the type being implemented.
pub const SELF_PLACEHOLDER: &'static str = "Self";

/// The texts of a list of strings.
pub open spec fn texts(v: Seq<String>) -> Seq<Seq<char>> {
    v.map_values(|b: String| b@)
}

/// The identifier of a parameter.
pub open spec fn ident(g: Generic) -> Seq<char> {
    match g {
        Generic::Lifetime { name, .. } => name@,
        Generic::Type { name, .. } => name@,
        Generic::Const { name, .. } => name@,
    }
}

/// Whether a parameter is the self placeholder.
pub open spec fn is_placeholder(g: Generic) -> bool {
    ident(g) == SELF_PLACEHOLDER@
}

/// Bounds joined by " + ".
pub open spec fn plus_join(bs: Seq<Seq<char>>) -> Seq<char>
    decreases bs.len(),
{
    if bs.len() == 0 {
        Seq::empty()
    } else if bs.len() == 1 {
        bs[0]
    } else {
        plus_join(bs.drop_last()) + " + "@ + bs.last()
    }
}

/// The bound injected for `contract`.
pub open spec fn contract_bound(contract: Seq<char>) -> Seq<char> {
    CONTRACT_NAMESPACE@ + contract
}

/// The declaration of a parameter in the clause with bounds: a type parameter
/// gets the contract bound after its own; a lifetime or a const parameter is
/// declared as written.
pub open spec fn decl_text(g: Generic, contract: Seq<char>) -> Seq<char> {
    match g {
        Generic::Lifetime { name, bounds } => if bounds@.len() == 0 {
            name@
        } else {
            name@ + ": "@ + plus_join(texts(bounds@))
        },
        Generic::Type { name, bounds } => name@ + ": "@ + plus_join(
            texts(bounds@).push(contract_bound(contract)),
        ),
        Generic::Const { name, ty } => "const "@ + name@ + ": "@ + ty@,
    }
}

/// The entries of the clause with bounds, each followed by ", ".
pub open spec fn bounded_entries(gs: Seq<Generic>, contract: Seq<char>) -> Seq<char>
    decreases gs.len(),
{
    if gs.len() == 0 {
        Seq::empty()
    } else if is_placeholder(gs.last()) {
        bounded_entries(gs.drop_last(), contract)
    } else {
        bounded_entries(gs.drop_last(), contract) + decl_text(gs.last(), contract) + ", "@
    }
}

/// The entries of the bare clause, each followed by ", ".
pub open spec fn bare_entries(gs: Seq<Generic>) -> Seq<char>
    decreases gs.len(),
{
    if gs.len() == 0 {
        Seq::empty()
    } else if is_placeholder(gs.last()) {
        bare_entries(gs.drop_last())
    } else {
        bare_entries(gs.drop_last()) + ident(gs.last()) + ", "@
    }
}

/// Entries in angle brackets; no clause at all for an empty parameter list.
pub open spec fn clause(gs: Seq<Generic>, entries: Seq<char>) -> Seq<char> {
    if gs.len() == 0 {
        Seq::empty()
    } else {
        "<"@ + entries + ">"@
    }
}

/// The clause with the contract bound on every type parameter.
pub open spec fn bounded_clause(gs: Seq<Generic>, contract: Seq<char>) -> Seq<char> {
    clause(gs, bounded_entries(gs, contract))
}

/// The clause with the bare parameter names.
pub open spec fn bare_clause(gs: Seq<Generic>) -> Seq<char> {
    clause(gs, bare_entries(gs))
}

/// Appends `bs` joined by " + " to `out`.
fn push_plus_joined(out: &mut String, bs: &Vec<String>)
    ensures
        final(out)@ == old(out)@ + plus_join(texts(bs@)),
{
    let ghost start = out@;
    let ghost ts = texts(bs@);
    let mut i: usize = 0;
    assert(ts.take(0) =~= Seq::<Seq<char>>::empty());
    while i < bs.len()
        invariant
            0 <= i <= bs@.len(),
            ts == texts(bs@),
            out@ == start + plus_join(ts.take(i as int)),
        decreases bs@.len() - i,
    {
        if i > 0 {
            out.append(" + ");
        }
        out.append(bs[i].as_str());
        proof {
            assert(ts.take(i + 1).drop_last() =~= ts.take(i as int));
            if i == 0 {
                assert(ts.take(1) =~= seq![ts[0]]);
            }
        }
        i = i + 1;
    }
    assert(ts.take(bs@.len() as int) =~= ts);
}

impl Generic {
    /// The identifier of the parameter.
    pub fn ident_only(&self) -> (r: &String)
        ensures
            r@ == ident(*self),
    {
        match self {
            Generic::Lifetime { name, .. } => name,
            Generic::Type { name, .. } => name,
            Generic::Const { name, .. } => name,
        }
    }

    /// Appends the declaration of the parameter, with `bound` as the injected
    /// bound of a type parameter.
    fn push_decl(&self, out: &mut String, bound: &String, Ghost(contract): Ghost<Seq<char>>)
        requires
            bound@ == contract_bound(contract),
        ensures
            final(out)@ == old(out)@ + decl_text(*self, contract),
    {
        let ghost start = out@;
        match self {
            Generic::Lifetime { name, bounds } => {
                out.append(name.as_str());
                if bounds.len() > 0 {
                    out.append(": ");
                    push_plus_joined(out, bounds);
                }
            },
            Generic::Type { name, bounds } => {
                out.append(name.as_str());
                out.append(": ");
                push_plus_joined(out, bounds);
                if bounds.len() > 0 {
                    out.append(" + ");
                }
                out.append(bound.as_str());
                proof {
                    let ts = texts(bounds@);
                    assert(ts.push(contract_bound(contract)).drop_last() =~= ts);
                    if ts.len() == 0 {
                        assert(plus_join(ts) =~= Seq::<char>::empty());
                    }
                }
            },
            Generic::Const { name, ty } => {
                out.append("const ");
                out.append(name.as_str());
                out.append(": ");
                out.append(ty.as_str());
            },
        }
        assert(out@ =~= start + decl_text(*self, contract));
    }
}

/// Whether `g` is the self placeholder.
fn placeholder(g: &Generic) -> (r: bool)
    ensures
        r == is_placeholder(*g),
{
    let s = String::from_str(SELF_PLACEHOLDER);
    *g.ident_only() == s
}

/// Renders the clause with bounds and the bare clause of `generics` for `bound_name`.
pub fn bounds_strings(generics: &Vec<Generic>, bound_name: &str) -> (r: (String, String))
    ensures
        r.0@ == bounded_clause(generics@, bound_name@),
        r.1@ == bare_clause(generics@),
{
    let ghost gs = generics@;
    let ghost c = bound_name@;
    if generics.len() == 0 {
        return (String::new(), String::new());
    }
    let mut bound = String::from_str(CONTRACT_NAMESPACE);
    bound.append(bound_name);
    let mut with_bounds = String::from_str("<");
    let mut no_bounds = String::from_str("<");
    let mut i: usize = 0;
    assert(gs.take(0) =~= Seq::<Generic>::empty());
    while i < generics.len()
        invariant
            0 <= i <= gs.len(),
            gs == generics@,
            c == bound_name@,
            bound@ == contract_bound(c),
            with_bounds@ == "<"@ + bounded_entries(gs.take(i as int), c),
            no_bounds@ == "<"@ + bare_entries(gs.take(i as int)),
        decreases gs.len() - i,
    {
        let g = &generics[i];
        proof {
            assert(gs.take(i + 1).drop_last() =~= gs.take(i as int));
            assert(gs.take(i + 1).last() == gs[i as int]);
        }
        if !placeholder(g) {
            g.push_decl(&mut with_bounds, &bound, Ghost(c));
            with_bounds.append(", ");
            no_bounds.append(g.ident_only().as_str());
            no_bounds.append(", ");
        }
        i = i + 1;
    }
    assert(gs.take(gs.len() as int) =~= gs);
    with_bounds.append(">");
    no_bounds.append(">");
    (with_bounds, no_bounds)
}

/// The two clauses of a record type.
pub fn struct_bounds_strings(struct_: &Struct, bound_name: &str) -> (r: (String, String))
    ensures
        r.0@ == bounded_clause(struct_.generics@, bound_name@),
        r.1@ == bare_clause(struct_.generics@),
{
    bounds_strings(&struct_.generics, bound_name)
}

/// The two clauses of a tagged-union type.
pub fn enum_bounds_strings(enum_: &Enum, bound_name: &str) -> (r: (String, String))
    ensures
        r.0@ == bounded_clause(enum_.generics@, bound_name@),
        r.1@ == bare_clause(enum_.generics@),
{
    bounds_strings(&enum_.generics, bound_name)
}

/// The entries of two lists written one after the other are the entries of
/// the joined list.
proof fn lemma_entries_concat(a: Seq<Generic>, b: Seq<Generic>, contract: Seq<char>)
    ensures
        bounded_entries(a + b, contract) == bounded_entries(a, contract) + bounded_entries(
            b,
            contract,
        ),
        bare_entries(a + b) == bare_entries(a) + bare_entries(b),
    decreases b.len(),
{
    if b.len() == 0 {
        assert(a + b =~= a);
        assert(bounded_entries(a, contract) + bounded_entries(b, contract) =~= bounded_entries(
            a,
            contract,
        ));
        assert(bare_entries(a) + bare_entries(b) =~= bare_entries(a));
    } else {
        assert((a + b).drop_last() =~= a + b.drop_last());
        assert((a + b).last() == b.last());
        lemma_entries_concat(a, b.drop_last(), contract);
        if is_placeholder(b.last()) {
        } else {
            assert(bounded_entries(a + b, contract) =~= bounded_entries(a, contract)
                + bounded_entries(b, contract));
            assert(bare_entries(a + b) =~= bare_entries(a) + bare_entries(b));
        }
    }
}

/// A self placeholder, wherever it stands in a non-empty list, changes
/// neither clause: both are those of the list without it.
pub proof fn lemma_placeholder_omitted(
    a: Seq<Generic>,
    p: Generic,
    b: Seq<Generic>,
    contract: Seq<char>,
)
    requires
        is_placeholder(p),
        a.len() + b.len() > 0,
    ensures
        bounded_clause(a + seq![p] + b, contract) == bounded_clause(a + b, contract),
        bare_clause(a + seq![p] + b) == bare_clause(a + b),
{
    let one = seq![p];
    assert(one.drop_last() =~= Seq::<Generic>::empty());
    assert(one.last() == p);
    assert(bounded_entries(one.drop_last(), contract) =~= Seq::<char>::empty());
    assert(bare_entries(one.drop_last()) =~= Seq::<char>::empty());
    assert(bounded_entries(one, contract) =~= Seq::<char>::empty());
    assert(bare_entries(one) =~= Seq::<char>::empty());
    lemma_entries_concat(a, one, contract);
    lemma_entries_concat(a + one, b, contract);
    lemma_entries_concat(a, b, contract);
    assert(bounded_entries(a, contract) + bounded_entries(one, contract) =~= bounded_entries(
        a,
        contract,
    ));
    assert(bare_entries(a) + bare_entries(one) =~= bare_entries(a));
}

/// A record type and a tagged-union type with the same parameter list get the
/// same two clauses for the same contract.
pub proof fn lemma_struct_enum_agree(s: Struct, e: Enum, contract: Seq<char>)
    requires
        s.generics@ == e.generics@,
    ensures
        bounded_clause(s.generics@, contract) == bounded_clause(e.generics@, contract),
        bare_clause(s.generics@) == bare_clause(e.generics@),
{
}

} // verus!
