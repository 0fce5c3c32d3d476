//! Annotations on a type or a field: schema validation and fact extraction.
//!
//! An annotation is a list of tokens: the first is its name, the rest are its
//! arguments. A list of annotations is viewed as `Seq<Seq<Seq<char>>>`.

use vstd::prelude::*;

use crate::text::{decimal, usize_to_decimal};

verus! {

/// One annotation as the declaration parser found it.
pub struct Attribute {
    pub tokens: Vec<String>,
}

impl View for Attribute {
    type V = Seq<Seq<char>>;

    open spec fn view(&self) -> Seq<Seq<char>> {
        self.tokens@.map_values(|t: String| t@)
    }
}

/// The view of every annotation of a list.
pub open spec fn attrs_view(attrs: Seq<Attribute>) -> Seq<Seq<Seq<char>>> {
    attrs.map_values(|a: Attribute| a@)
}

/// Which schema applies: the one for types or the one for fields.
#[derive(Clone, Copy, PartialEq, Eq, Structural)]
pub enum Site {
    Type,
    Field,
}

/// The argument counts that `site` accepts for an annotation called `name`,
/// or `None` where the name is not recognized there.
pub open spec fn schema(site: Site, name: Seq<char>) -> Option<Seq<nat>> {
    if name == "proxy"@ || name == "rename"@ || name == "default_with"@ {
        Some(seq![1nat])
    } else if name == "default"@ {
        Some(seq![0nat, 1nat])
    } else if name == "skip"@ {
        Some(seq![0nat])
    } else if site == Site::Type && name == "transparent"@ {
        Some(seq![0nat])
    } else if site == Site::Field && name == "serialize_none_as_null"@ {
        Some(seq![0nat])
    } else {
        None
    }
}

/// Counts as mathematical integers.
pub open spec fn nat_seq(s: Seq<usize>) -> Seq<nat> {
    s.map_values(|n: usize| n as nat)
}

/// Items joined by ", ".
pub open spec fn comma_list(ns: Seq<nat>) -> Seq<char>
    decreases ns.len(),
{
    if ns.len() == 0 {
        Seq::empty()
    } else if ns.len() == 1 {
        decimal(ns[0])
    } else {
        comma_list(ns.drop_last()) + ", "@ + decimal(ns.last())
    }
}

/// The accepted counts as a message shows them: "N" for one, "N1, N2 or N3" for more.
pub open spec fn counts_text(ns: Seq<nat>) -> Seq<char> {
    if ns.len() <= 1 {
        comma_list(ns)
    } else {
        comma_list(ns.drop_last()) + " or "@ + decimal(ns.last())
    }
}

/// What `format!("{:?}", s)` renders for the string `s`.
pub uninterp spec fn debug_quoted(s: Seq<char>) -> Seq<char>;

/// The message for an annotation without any token.
pub open spec fn missing_name_msg() -> Seq<char> {
    "Attribute must have at least one token"@
}

/// The message for a name that the schema of `site` does not hold.
pub open spec fn unrecognized_msg(site: Site, name: Seq<char>) -> Seq<char> {
    match site {
        Site::Type => "unrecognized nserde() struct attribute: "@ + debug_quoted(name),
        Site::Field => "unrecognized nserde() field attribute: "@ + debug_quoted(name),
    }
}

/// The message for an annotation `name` with `found` arguments where `counts` are accepted.
pub open spec fn arity_msg(name: Seq<char>, counts: Seq<nat>, found: nat) -> Seq<char> {
    "Attribute \""@ + name + "\" expects "@ + counts_text(counts) + " arguments, found "@
        + decimal(found)
}

/// The error of a single annotation under the schema of `site`, if it has one.
pub open spec fn attr_error(a: Seq<Seq<char>>, site: Site) -> Option<Seq<char>> {
    if a.len() == 0 {
        Some(missing_name_msg())
    } else {
        match schema(site, a[0]) {
            None => Some(unrecognized_msg(site, a[0])),
            Some(counts) => if counts.contains((a.len() - 1) as nat) {
                None
            } else {
                Some(arity_msg(a[0], counts, (a.len() - 1) as nat))
            },
        }
    }
}

/// The error of the first annotation of the list that has one.
pub open spec fn first_error(attrs: Seq<Seq<Seq<char>>>, site: Site) -> Option<Seq<char>>
    decreases attrs.len(),
{
    if attrs.len() == 0 {
        None
    } else {
        match attr_error(attrs[0], site) {
            Some(e) => Some(e),
            None => first_error(attrs.drop_first(), site),
        }
    }
}

/// Relies on the `Debug` impl of `str`, through `format!("{:?}", ..)`.
#[verifier::external_body]
fn debug_string(s: &str) -> (r: String)
    ensures
        r@ == debug_quoted(s@),
{
    format!("{:?}", s)
}

/// Whether `tok` is exactly the text `lit`.
fn is_token(tok: &String, lit: &str) -> (r: bool)
    ensures
        r == (tok@ == lit@),
{
    let l = String::from_str(lit);
    *tok == l
}

/// The argument counts that `site` accepts for `name`, as a table lookup.
fn lookup_counts(site: Site, name: &String) -> (r: Option<Vec<usize>>)
    ensures
        match (r, schema(site, name@)) {
            (None, None) => true,
            (Some(v), Some(counts)) => nat_seq(v@) == counts,
            _ => false,
        },
{
    if is_token(name, "proxy") || is_token(name, "rename") || is_token(name, "default_with") {
        let r = vec![1usize];
        assert(nat_seq(r@) =~= seq![1nat]);
        Some(r)
    } else if is_token(name, "default") {
        let r = vec![0usize, 1usize];
        assert(nat_seq(r@) =~= seq![0nat, 1nat]);
        Some(r)
    } else if is_token(name, "skip") || (site == Site::Type && is_token(name, "transparent")) || (
    site == Site::Field && is_token(name, "serialize_none_as_null")) {
        let r = vec![0usize];
        assert(nat_seq(r@) =~= seq![0nat]);
        Some(r)
    } else {
        None
    }
}

/// Renders `counts_text` for the counts in `lens`.
fn counts_string(lens: &[usize]) -> (r: String)
    requires
        lens@.len() >= 1,
    ensures
        r@ == counts_text(nat_seq(lens@)),
{
    let ghost ns = nat_seq(lens@);
    let n = lens.len() - 1;
    if n == 0 {
        let r = usize_to_decimal(lens[0]);
        assert(r@ == counts_text(ns));
        return r;
    }
    let mut s = String::new();
    let mut i: usize = 0;
    while i < n
        invariant
            0 <= i <= n,
            n + 1 == lens@.len(),
            ns == nat_seq(lens@),
            s@ == comma_list(ns.take(i as int)),
        decreases n - i,
    {
        let d = usize_to_decimal(lens[i]);
        if i > 0 {
            s.append(", ");
        }
        s.append(d.as_str());
        proof {
            assert(ns.take(i + 1).drop_last() =~= ns.take(i as int));
            if i == 0 {
                assert(ns.take(0) =~= Seq::<nat>::empty());
            }
        }
        i = i + 1;
    }
    s.append(" or ");
    let d = usize_to_decimal(lens[n]);
    s.append(d.as_str());
    assert(ns.take(n as int) =~= ns.drop_last());
    s
}

/// Checks that `attr` has exactly `expected_len` arguments.
fn expect_args_len(attr: &Attribute, expected_len: usize) -> (r: Result<(), String>)
    requires
        attr@.len() >= 1,
    ensures
        match r {
            Ok(_) => attr@.len() == expected_len + 1,
            Err(e) => attr@.len() != expected_len + 1 && e@ == arity_msg(
                attr@[0],
                seq![expected_len as nat],
                (attr@.len() - 1) as nat,
            ),
        },
{
    let found = attr.tokens.len() - 1;
    if found != expected_len {
        let mut e = String::from_str("Attribute \"");
        e.append(attr.tokens[0].as_str());
        e.append("\" expects ");
        let c = usize_to_decimal(expected_len);
        e.append(c.as_str());
        e.append(" arguments, found ");
        let f = usize_to_decimal(found);
        e.append(f.as_str());
        assert(comma_list(seq![expected_len as nat]) == decimal(expected_len as nat));
        return Err(e);
    }
    Ok(())
}

/// Checks that the number of arguments of `attr` is one of `expected_lens`.
fn expect_args_lens(attr: &Attribute, expected_lens: &[usize]) -> (r: Result<(), String>)
    requires
        attr@.len() >= 1,
        expected_lens@.len() >= 1,
    ensures
        match r {
            Ok(_) => nat_seq(expected_lens@).contains((attr@.len() - 1) as nat),
            Err(e) => !nat_seq(expected_lens@).contains((attr@.len() - 1) as nat) && e@
                == arity_msg(attr@[0], nat_seq(expected_lens@), (attr@.len() - 1) as nat),
        },
{
    let ghost ns = nat_seq(expected_lens@);
    let found = attr.tokens.len() - 1;
    let mut j: usize = 0;
    while j < expected_lens.len()
        invariant
            0 <= j <= expected_lens@.len(),
            ns == nat_seq(expected_lens@),
            found == attr@.len() - 1,
            forall|k: int| 0 <= k < j ==> ns[k] != found,
        decreases expected_lens@.len() - j,
    {
        if expected_lens[j] == found {
            assert(ns[j as int] == found);
            return Ok(());
        }
        j = j + 1;
    }
    let mut e = String::from_str("Attribute \"");
    e.append(attr.tokens[0].as_str());
    e.append("\" expects ");
    let c = counts_string(expected_lens);
    e.append(c.as_str());
    e.append(" arguments, found ");
    let f = usize_to_decimal(found);
    e.append(f.as_str());
    Err(e)
}

/// Checks every annotation of `attributes` against the schema of `site`,
/// stopping at the first one in error.
pub fn validate(attributes: &[Attribute], site: Site) -> (r: Result<(), String>)
    ensures
        match r {
            Ok(_) => first_error(attrs_view(attributes@), site) is None,
            Err(e) => first_error(attrs_view(attributes@), site) == Some(e@),
        },
{
    let ghost av = attrs_view(attributes@);
    let n = attributes.len();
    let mut i: usize = 0;
    assert(av.subrange(0, n as int) =~= av);
    while i < n
        invariant
            0 <= i <= n,
            n == attributes@.len(),
            av == attrs_view(attributes@),
            first_error(av, site) == first_error(av.subrange(i as int, n as int), site),
        decreases n - i,
    {
        let attr = &attributes[i];
        let ghost rest = av.subrange(i as int, n as int);
        assert(rest[0] == attr@);
        assert(rest.drop_first() =~= av.subrange(i + 1, n as int));
        if attr.tokens.len() < 1 {
            return Err(String::from_str("Attribute must have at least one token"));
        }
        let name = &attr.tokens[0];
        match lookup_counts(site, name) {
            None => {
                let q = debug_string(name.as_str());
                let mut e = match site {
                    Site::Type => String::from_str("unrecognized nserde() struct attribute: "),
                    Site::Field => String::from_str("unrecognized nserde() field attribute: "),
                };
                e.append(q.as_str());
                return Err(e);
            },
            Some(counts) => {
                let res = if counts.len() == 1 {
                    let res = expect_args_len(attr, counts[0]);
                    proof {
                        assert(nat_seq(counts@) =~= seq![counts@[0] as nat]);
                        if nat_seq(counts@).contains((attr@.len() - 1) as nat) {
                            let k = choose|k: int| 0 <= k < nat_seq(counts@).len() && nat_seq(counts@)[k] == (attr@.len() - 1) as nat;
                            assert(k == 0);
                        }
                    }
                    res
                } else {
                    expect_args_lens(attr, counts.as_slice())
                };
                if let Err(e) = res {
                    return Err(e);
                }
                assert(attr_error(attr@, site) is None);
            },
        }
        i = i + 1;
    }
    assert(av.subrange(n as int, n as int) =~= Seq::<Seq<Seq<char>>>::empty());
    Ok(())
}

/// Checks the annotations of a type: stops at the first one in error.
pub fn validate_attrs(attributes: &[Attribute]) -> (r: Result<(), String>)
    ensures
        match r {
            Ok(_) => first_error(attrs_view(attributes@), Site::Type) is None,
            Err(e) => first_error(attrs_view(attributes@), Site::Type) == Some(e@),
        },
{
    validate(attributes, Site::Type)
}

/// Checks the annotations of a field: stops at the first one in error.
pub fn validate_field_attrs(attributes: &[Attribute]) -> (r: Result<(), String>)
    ensures
        match r {
            Ok(_) => first_error(attrs_view(attributes@), Site::Field) is None,
            Err(e) => first_error(attrs_view(attributes@), Site::Field) == Some(e@),
        },
{
    validate(attributes, Site::Field)
}

/// The text of an optional string.
pub open spec fn opt_text(o: Option<String>) -> Option<Seq<char>> {
    match o {
        Some(s) => Some(s@),
        None => None,
    }
}

/// Whether `a` is the annotation `name` with exactly one argument.
pub open spec fn is_with_arg(a: Seq<Seq<char>>, name: Seq<char>) -> bool {
    a.len() == 2 && a[0] == name
}

/// Whether `a` is the annotation `name` with no argument.
pub open spec fn is_flag(a: Seq<Seq<char>>, name: Seq<char>) -> bool {
    a.len() == 1 && a[0] == name
}

/// The argument of the first annotation `name` with exactly one argument.
pub open spec fn first_arg(attrs: Seq<Seq<Seq<char>>>, name: Seq<char>) -> Option<Seq<char>>
    decreases attrs.len(),
{
    if attrs.len() == 0 {
        None
    } else if is_with_arg(attrs[0], name) {
        Some(attrs[0][1])
    } else {
        first_arg(attrs.drop_first(), name)
    }
}

/// The first `default` annotation with at most one argument: `Some(None)`
/// without a value, `Some(Some(v))` with the value `v`, `None` if there is none.
pub open spec fn first_default(attrs: Seq<Seq<Seq<char>>>) -> Option<Option<Seq<char>>>
    decreases attrs.len(),
{
    if attrs.len() == 0 {
        None
    } else if is_flag(attrs[0], "default"@) {
        Some(None)
    } else if is_with_arg(attrs[0], "default"@) {
        Some(Some(attrs[0][1]))
    } else {
        first_default(attrs.drop_first())
    }
}

/// Whether some annotation is `name` with no argument.
pub open spec fn has_flag(attrs: Seq<Seq<Seq<char>>>, name: Seq<char>) -> bool {
    exists|i: int| 0 <= i < attrs.len() && is_flag(#[trigger] attrs[i], name)
}

/// The argument of the first annotation `name` that has exactly one.
fn find_arg(attributes: &[Attribute], name: &str) -> (r: Option<String>)
    ensures
        opt_text(r) == first_arg(attrs_view(attributes@), name@),
{
    let ghost av = attrs_view(attributes@);
    let n = attributes.len();
    let mut i: usize = 0;
    assert(av.subrange(0, n as int) =~= av);
    while i < n
        invariant
            0 <= i <= n,
            n == attributes@.len(),
            av == attrs_view(attributes@),
            first_arg(av, name@) == first_arg(av.subrange(i as int, n as int), name@),
        decreases n - i,
    {
        let attr = &attributes[i];
        let ghost rest = av.subrange(i as int, n as int);
        assert(rest[0] == attr@);
        assert(rest.drop_first() =~= av.subrange(i + 1, n as int));
        if attr.tokens.len() == 2 && is_token(&attr.tokens[0], name) {
            return Some(attr.tokens[1].clone());
        }
        i = i + 1;
    }
    assert(av.subrange(n as int, n as int) =~= Seq::<Seq<Seq<char>>>::empty());
    None
}

/// Whether some annotation is `name` with no argument.
fn find_flag(attributes: &[Attribute], name: &str) -> (r: bool)
    ensures
        r == has_flag(attrs_view(attributes@), name@),
{
    let ghost av = attrs_view(attributes@);
    let mut i: usize = 0;
    while i < attributes.len()
        invariant
            0 <= i <= attributes@.len(),
            av == attrs_view(attributes@),
            forall|k: int| 0 <= k < i ==> !is_flag(#[trigger] av[k], name@),
        decreases attributes@.len() - i,
    {
        let attr = &attributes[i];
        if attr.tokens.len() == 1 && is_token(&attr.tokens[0], name) {
            assert(is_flag(av[i as int], name@));
            return true;
        }
        i = i + 1;
    }
    false
}

/// The target of the first `proxy` annotation with one argument.
pub fn attrs_proxy(attributes: &[Attribute]) -> (r: Option<String>)
    ensures
        opt_text(r) == first_arg(attrs_view(attributes@), "proxy"@),
{
    find_arg(attributes, "proxy")
}

/// The wire name of the first `rename` annotation with one argument.
pub fn attrs_rename(attributes: &[Attribute]) -> (r: Option<String>)
    ensures
        opt_text(r) == first_arg(attrs_view(attributes@), "rename"@),
{
    find_arg(attributes, "rename")
}

/// The first `default` annotation: absent, present without a value, or
/// present with the value of its argument.
pub fn attrs_default(attributes: &[Attribute]) -> (r: Option<Option<String>>)
    ensures
        match r {
            None => first_default(attrs_view(attributes@)) is None,
            Some(v) => first_default(attrs_view(attributes@)) == Some(opt_text(v)),
        },
{
    let ghost av = attrs_view(attributes@);
    let n = attributes.len();
    let mut i: usize = 0;
    assert(av.subrange(0, n as int) =~= av);
    while i < n
        invariant
            0 <= i <= n,
            n == attributes@.len(),
            av == attrs_view(attributes@),
            first_default(av) == first_default(av.subrange(i as int, n as int)),
        decreases n - i,
    {
        let attr = &attributes[i];
        let ghost rest = av.subrange(i as int, n as int);
        assert(rest[0] == attr@);
        assert(rest.drop_first() =~= av.subrange(i + 1, n as int));
        if attr.tokens.len() >= 1 && attr.tokens.len() <= 2 && is_token(
            &attr.tokens[0],
            "default",
        ) {
            if attr.tokens.len() == 1 {
                return Some(None);
            } else {
                return Some(Some(attr.tokens[1].clone()));
            }
        }
        i = i + 1;
    }
    assert(av.subrange(n as int, n as int) =~= Seq::<Seq<Seq<char>>>::empty());
    None
}

/// The function named by the first `default_with` annotation with one argument.
pub fn attrs_default_with(attributes: &[Attribute]) -> (r: Option<String>)
    ensures
        opt_text(r) == first_arg(attrs_view(attributes@), "default_with"@),
{
    find_arg(attributes, "default_with")
}

/// Whether the type is marked `transparent`.
pub fn attrs_transparent(attributes: &[Attribute]) -> (r: bool)
    ensures
        r == has_flag(attrs_view(attributes@), "transparent"@),
{
    find_flag(attributes, "transparent")
}

/// Whether the item is marked `skip`.
pub fn attrs_skip(attributes: &[Attribute]) -> (r: bool)
    ensures
        r == has_flag(attrs_view(attributes@), "skip"@),
{
    find_flag(attributes, "skip")
}

/// Whether the field is marked `serialize_none_as_null`.
pub fn attrs_serialize_none_as_null(attributes: &[Attribute]) -> (r: bool)
    ensures
        r == has_flag(attrs_view(attributes@), "serialize_none_as_null"@),
{
    find_flag(attributes, "serialize_none_as_null")
}

/// An annotation that the schema of `site` accepts: a recognized name with
/// one of its accepted argument counts.
pub open spec fn accepted(a: Seq<Seq<char>>, site: Site) -> bool {
    a.len() >= 1 && match schema(site, a[0]) {
        Some(counts) => counts.contains((a.len() - 1) as nat),
        None => false,
    }
}

/// Validation succeeds on every list whose annotations the schema accepts.
pub proof fn lemma_accepted_list_validates(attrs: Seq<Seq<Seq<char>>>, site: Site)
    requires
        forall|i: int| 0 <= i < attrs.len() ==> accepted(#[trigger] attrs[i], site),
    ensures
        first_error(attrs, site) is None,
    decreases attrs.len(),
{
    if attrs.len() > 0 {
        assert(accepted(attrs[0], site));
        let rest = attrs.drop_first();
        assert forall|i: int| 0 <= i < rest.len() implies accepted(#[trigger] rest[i], site) by {
            assert(rest[i] == attrs[i + 1]);
        }
        lemma_accepted_list_validates(rest, site);
    }
}

/// Where the annotations before `i` are fine, validation reports the error of
/// annotation `i`, or goes on past it.
proof fn lemma_first_error_at(attrs: Seq<Seq<Seq<char>>>, site: Site, i: int)
    requires
        0 <= i < attrs.len(),
        forall|j: int| 0 <= j < i ==> attr_error(#[trigger] attrs[j], site) is None,
    ensures
        attr_error(attrs[i], site) is Some ==> first_error(attrs, site) == attr_error(
            attrs[i],
            site,
        ),
    decreases i,
{
    if i > 0 {
        let rest = attrs.drop_first();
        assert(attr_error(attrs[0], site) is None);
        assert forall|j: int| 0 <= j < i - 1 implies attr_error(#[trigger] rest[j], site) is None by {
            assert(rest[j] == attrs[j + 1]);
        }
        lemma_first_error_at(rest, site, i - 1);
        assert(rest[i - 1] == attrs[i]);
    }
}

/// Validation fails on every list that holds an annotation in error.
proof fn lemma_error_reported(attrs: Seq<Seq<Seq<char>>>, site: Site, i: int)
    requires
        0 <= i < attrs.len(),
        attr_error(attrs[i], site) is Some,
    ensures
        first_error(attrs, site) is Some,
    decreases i,
{
    if i > 0 && attr_error(attrs[0], site) is None {
        let rest = attrs.drop_first();
        assert(rest[i - 1] == attrs[i]);
        lemma_error_reported(rest, site, i - 1);
    }
}

/// Validation fails on every list that holds an annotation without tokens;
/// where the annotations before it are fine, with the missing-name message.
pub proof fn lemma_missing_name_rejected(attrs: Seq<Seq<Seq<char>>>, site: Site, i: int)
    requires
        0 <= i < attrs.len(),
        attrs[i].len() == 0,
    ensures
        first_error(attrs, site) is Some,
        (forall|j: int| 0 <= j < i ==> attr_error(#[trigger] attrs[j], site) is None) ==> first_error(
            attrs,
            site,
        ) == Some(missing_name_msg()),
{
    lemma_error_reported(attrs, site, i);
    if forall|j: int| 0 <= j < i ==> attr_error(#[trigger] attrs[j], site) is None {
        lemma_first_error_at(attrs, site, i);
    }
}

/// Validation fails on every list that holds a name the schema of `site` does
/// not know; where the annotations before it are fine, the message names it.
pub proof fn lemma_unrecognized_rejected(attrs: Seq<Seq<Seq<char>>>, site: Site, i: int)
    requires
        0 <= i < attrs.len(),
        attrs[i].len() >= 1,
        schema(site, attrs[i][0]) is None,
    ensures
        first_error(attrs, site) is Some,
        (forall|j: int| 0 <= j < i ==> attr_error(#[trigger] attrs[j], site) is None) ==> first_error(
            attrs,
            site,
        ) == Some(unrecognized_msg(site, attrs[i][0])),
{
    lemma_error_reported(attrs, site, i);
    if forall|j: int| 0 <= j < i ==> attr_error(#[trigger] attrs[j], site) is None {
        lemma_first_error_at(attrs, site, i);
    }
}

/// Of two annotations `name` with one argument each, the argument of the
/// earlier one is extracted, where no annotation before it matches.
pub proof fn lemma_first_arg_wins(attrs: Seq<Seq<Seq<char>>>, name: Seq<char>, i: int, j: int)
    requires
        0 <= i < j < attrs.len(),
        is_with_arg(attrs[i], name),
        is_with_arg(attrs[j], name),
        forall|k: int| 0 <= k < i ==> !is_with_arg(#[trigger] attrs[k], name),
    ensures
        first_arg(attrs, name) == Some(attrs[i][1]),
    decreases i,
{
    if i > 0 {
        let rest = attrs.drop_first();
        assert(!is_with_arg(attrs[0], name));
        assert forall|k: int| 0 <= k < i - 1 implies !is_with_arg(#[trigger] rest[k], name) by {
            assert(rest[k] == attrs[k + 1]);
        }
        assert(rest[i - 1] == attrs[i]);
        assert(rest[j - 1] == attrs[j]);
        lemma_first_arg_wins(rest, name, i - 1, j - 1);
    }
}

/// Whether `a` is a `default` annotation with at most one argument.
pub open spec fn is_default(a: Seq<Seq<char>>) -> bool {
    is_flag(a, "default"@) || is_with_arg(a, "default"@)
}

/// Of two `default` annotations, the earlier one decides, where no
/// annotation before it is one.
pub proof fn lemma_first_default_wins(attrs: Seq<Seq<Seq<char>>>, i: int, j: int)
    requires
        0 <= i < j < attrs.len(),
        is_default(attrs[i]),
        is_default(attrs[j]),
        forall|k: int| 0 <= k < i ==> !is_default(#[trigger] attrs[k]),
    ensures
        first_default(attrs) == (if attrs[i].len() == 1 {
            Some(None)
        } else {
            Some(Some(attrs[i][1]))
        }),
    decreases i,
{
    if i > 0 {
        let rest = attrs.drop_first();
        assert(!is_default(attrs[0]));
        assert forall|k: int| 0 <= k < i - 1 implies !is_default(#[trigger] rest[k]) by {
            assert(rest[k] == attrs[k + 1]);
        }
        assert(rest[i - 1] == attrs[i]);
        assert(rest[j - 1] == attrs[j]);
        lemma_first_default_wins(rest, i - 1, j - 1);
    }
}

} // verus!
