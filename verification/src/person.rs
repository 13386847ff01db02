//! Persons (authors, translators, ...) and their normalized identifiers.

use vstd::prelude::*;

use crate::normalize::{
    has_letter, join_strings, join_with, normalize_name, opt_view, spec_normalize_name, split_on,
    views,
};

verus! {

/// Representation of a person (author, translator, etc.) in the book library.
#[derive(Clone, Debug)]
pub struct Person {
    pub id: String,
    pub first_name: Option<String>,
    pub middle_name: Option<String>,
    pub last_name: Option<String>,
}

/// The fields of a person, as plain values: the id, then the first, middle
/// and last names.
pub type PersonModel = (Seq<char>, Option<Seq<char>>, Option<Seq<char>>, Option<Seq<char>>);

impl Person {
    /// The fields of this person, as plain values.
    pub open spec fn model(self) -> PersonModel {
        (self.id@, opt_view(self.first_name), opt_view(self.middle_name), opt_view(self.last_name))
    }

    /// A field-by-field copy of this person; its contract states that every
    /// field is kept.
    pub fn duplicate(&self) -> (r: Person)
        ensures
            r.model() == self.model(),
    {
        Person {
            id: self.id.clone(),
            first_name: clone_name(&self.first_name),
            middle_name: clone_name(&self.middle_name),
            last_name: clone_name(&self.last_name),
        }
    }
}

/// The normalized names of the given name parts, in order: absent parts and
/// parts that normalize to nothing are left out.
pub open spec fn normalized_names(parts: Seq<Option<Seq<char>>>) -> Seq<Seq<char>>
    decreases parts.len(),
{
    if parts.len() == 0 {
        seq![]
    } else {
        let rest = normalized_names(parts.drop_last());
        match parts.last() {
            Some(p) => match spec_normalize_name(p) {
                Some(n) => rest.push(n),
                None => rest,
            },
            None => rest,
        }
    }
}

/// What `normalize` returns: the normalized last, first and middle names
/// joined with single spaces, or `None` when none of them survives.
pub open spec fn spec_normalize(
    last_name: Option<Seq<char>>,
    first_name: Option<Seq<char>>,
    middle_name: Option<Seq<char>>,
) -> Option<Seq<char>> {
    let names = normalized_names(seq![last_name, first_name, middle_name]);
    if names.len() == 0 {
        None
    } else {
        Some(join_with(names, seq![' ']))
    }
}

/// Whether the optional name part holds, in one of its hyphen-separated
/// pieces, a letter.
pub open spec fn part_has_letter(part: Option<Seq<char>>) -> bool {
    match part {
        Some(p) => exists|i: int| 0 <= i < split_on(p, '-').len() && has_letter(#[trigger] split_on(p, '-')[i]),
        None => false,
    }
}

/// A copy of an optional string.
pub fn clone_name(o: &Option<String>) -> (r: Option<String>)
    ensures
        opt_view(r) == opt_view(*o),
{
    match o {
        Some(t) => Some(t.clone()),
        None => None,
    }
}

fn add_normalized(names: &mut Vec<String>, part: &Option<String>)
    ensures
        views(final(names)@) == views(old(names)@) + normalized_names(seq![opt_view(*part)]),
        final(names).len() >= old(names).len(),
        final(names).len() == old(names).len() <==> !part_has_letter(opt_view(*part)),
{
    let ghost before = views(names@);
    let ghost one = seq![opt_view(*part)];
    assert(one.drop_last() =~= Seq::<Option<Seq<char>>>::empty());
    assert(normalized_names(Seq::<Option<Seq<char>>>::empty()) =~= Seq::<Seq<char>>::empty());
    match part {
        Some(p) => match normalize_name(p) {
            Some(n) => {
                names.push(n);
                assert(normalized_names(one) =~= seq![names@[names.len() - 1]@]);
                assert(views(names@) =~= before.push(names@[names.len() - 1]@));
            },
            None => {
                assert(normalized_names(one) =~= Seq::<Seq<char>>::empty());
                assert(views(names@) =~= before);
            },
        },
        None => {
            assert(normalized_names(one) =~= Seq::<Seq<char>>::empty());
            assert(views(names@) =~= before);
        },
    }
}

proof fn lemma_normalized_names_push(s: Seq<Option<Seq<char>>>, x: Option<Seq<char>>)
    ensures
        normalized_names(s.push(x)) == normalized_names(s) + normalized_names(seq![x]),
{
    assert(s.push(x).drop_last() =~= s);
    assert(seq![x].drop_last() =~= Seq::<Option<Seq<char>>>::empty());
    assert(normalized_names(Seq::<Option<Seq<char>>>::empty()) =~= Seq::<Seq<char>>::empty());
    assert(normalized_names(s.push(x)) =~= normalized_names(s) + normalized_names(seq![x]));
}

proof fn lemma_normalized_names_three(a: Option<Seq<char>>, b: Option<Seq<char>>, c: Option<Seq<char>>)
    ensures
        normalized_names(seq![a, b, c]) == normalized_names(seq![a]) + normalized_names(seq![b])
            + normalized_names(seq![c]),
{
    lemma_normalized_names_push(seq![a], b);
    lemma_normalized_names_push(seq![a, b], c);
    assert(seq![a].push(b) =~= seq![a, b]);
    assert(seq![a, b].push(c) =~= seq![a, b, c]);
}

/// Whether the optional name part holds a letter in one of its
/// hyphen-separated pieces (see [`part_has_letter`]).
pub fn name_part_has_letter(part: &Option<String>) -> (r: bool)
    ensures
        r == part_has_letter(opt_view(*part)),
{
    match part {
        None => false,
        Some(p) => normalize_name(p).is_some(),
    }
}

/// Name parts none of which holds a letter normalize to nothing.
pub proof fn lemma_no_letter_normalizes_to_nothing(
    last_name: Option<Seq<char>>,
    first_name: Option<Seq<char>>,
    middle_name: Option<Seq<char>>,
)
    requires
        !part_has_letter(last_name),
        !part_has_letter(first_name),
        !part_has_letter(middle_name),
    ensures
        spec_normalize(last_name, first_name, middle_name) is None,
{
    lemma_normalized_names_three(last_name, first_name, middle_name);
    lemma_part_without_letter(last_name);
    lemma_part_without_letter(first_name);
    lemma_part_without_letter(middle_name);
}

proof fn lemma_part_without_letter(part: Option<Seq<char>>)
    requires
        !part_has_letter(part),
    ensures
        normalized_names(seq![part]) == Seq::<Seq<char>>::empty(),
{
    let one = seq![part];
    assert(one.drop_last() =~= Seq::<Option<Seq<char>>>::empty());
    assert(normalized_names(Seq::<Option<Seq<char>>>::empty()) =~= Seq::<Seq<char>>::empty());
    if let Some(p) = part {
        assert forall|i: int| 0 <= i < split_on(p, '-').len() implies !has_letter(#[trigger] split_on(p, '-')[i]) by {}
        crate::normalize::lemma_name_without_letter(p);
    }
}

/// The id of a person with last, first and middle names that each
/// normalize is the three normalized names, in that order, joined by single
/// spaces; a missing part is left out.
pub proof fn law_id_joins_normalized_names(
    l: Seq<char>,
    f: Seq<char>,
    m: Option<Seq<char>>,
)
    requires
        spec_normalize_name(l) is Some,
        spec_normalize_name(f) is Some,
        m matches Some(mm) ==> spec_normalize_name(mm) is Some,
    ensures
        spec_normalize(Some(l), Some(f), m) == Some(match m {
            Some(mm) => spec_normalize_name(l)->Some_0 + seq![' '] + spec_normalize_name(f)->Some_0 + seq![' ']
                + spec_normalize_name(mm)->Some_0,
            None => spec_normalize_name(l)->Some_0 + seq![' '] + spec_normalize_name(f)->Some_0,
        }),
{
    lemma_normalized_names_three(Some(l), Some(f), m);
    let nl = spec_normalize_name(l)->Some_0;
    let nf = spec_normalize_name(f)->Some_0;
    let one_l = seq![Some(l)];
    let one_f = seq![Some(f)];
    let one_m = seq![m];
    assert(one_l.drop_last() =~= Seq::<Option<Seq<char>>>::empty());
    assert(one_f.drop_last() =~= Seq::<Option<Seq<char>>>::empty());
    assert(one_m.drop_last() =~= Seq::<Option<Seq<char>>>::empty());
    assert(normalized_names(Seq::<Option<Seq<char>>>::empty()) =~= Seq::<Seq<char>>::empty());
    assert(normalized_names(one_l) =~= seq![nl]);
    assert(normalized_names(one_f) =~= seq![nf]);
    let names = normalized_names(seq![Some(l), Some(f), m]);
    match m {
        Some(mm) => {
            let nm = spec_normalize_name(mm)->Some_0;
            assert(normalized_names(one_m) =~= seq![nm]);
            assert(names =~= seq![nl, nf, nm]);
            assert(names.drop_last() =~= seq![nl, nf]);
            assert(seq![nl, nf].drop_last() =~= seq![nl]);
            assert(join_with(seq![nl], seq![' ']) == nl);
            assert(join_with(seq![nl, nf], seq![' ']) == nl + seq![' '] + nf);
            assert(join_with(names, seq![' ']) == nl + seq![' '] + nf + seq![' '] + nm);
        },
        None => {
            assert(normalized_names(one_m) =~= Seq::<Seq<char>>::empty());
            assert(names =~= seq![nl, nf]);
            assert(names.drop_last() =~= seq![nl]);
            assert(join_with(seq![nl], seq![' ']) == nl);
            assert(join_with(names, seq![' ']) == nl + seq![' '] + nf);
        },
    }
}

/// [normalize last_name first_name middle_name] concatenates the non-empty name parts
/// after applying [Normalize.normalize_name] to each.
///
/// Parts none of which holds a letter are empty after normalization, and
/// `requires` excludes them; [`person_create`] answers `None` there.
pub fn normalize(
    last_name: &Option<String>,
    first_name: &Option<String>,
    middle_name: &Option<String>,
) -> (r: Option<String>)
    requires
        part_has_letter(opt_view(*last_name)) || part_has_letter(opt_view(*first_name)) || part_has_letter(
            opt_view(*middle_name),
        ),
    ensures
        r is Some,
        opt_view(r) == spec_normalize(opt_view(*last_name), opt_view(*first_name), opt_view(*middle_name)),
{
    let mut names: Vec<String> = Vec::new();
    add_normalized(&mut names, last_name);
    add_normalized(&mut names, first_name);
    add_normalized(&mut names, middle_name);
    proof {
        lemma_normalized_names_three(opt_view(*last_name), opt_view(*first_name), opt_view(*middle_name));
        assert(views(names@) =~= normalized_names(
            seq![opt_view(*last_name), opt_view(*first_name), opt_view(*middle_name)],
        ));
    }
    if names.len() == 0 {
        None
    } else {
        Some(join_strings(&names, ' '))
    }
}

/// [person_create_exn last_name first_name middle_name] creates a new [person] record.
/// The [id] field is set to the normalized name.
/// Panics if name normalizes to None; here that input is excluded by `requires`.
pub fn person_create_exn(
    last_name: &Option<String>,
    first_name: &Option<String>,
    middle_name: &Option<String>,
) -> (p: Person)
    requires
        spec_normalize(opt_view(*last_name), opt_view(*first_name), opt_view(*middle_name)) is Some,
    ensures
        Some(p.id@) == spec_normalize(opt_view(*last_name), opt_view(*first_name), opt_view(*middle_name)),
        opt_view(p.last_name) == opt_view(*last_name),
        opt_view(p.first_name) == opt_view(*first_name),
        opt_view(p.middle_name) == opt_view(*middle_name),
{
    proof {
        if !part_has_letter(opt_view(*last_name)) && !part_has_letter(opt_view(*first_name))
            && !part_has_letter(opt_view(*middle_name)) {
            lemma_no_letter_normalizes_to_nothing(opt_view(*last_name), opt_view(*first_name), opt_view(*middle_name));
        }
    }
    let id = match normalize(last_name, first_name, middle_name) {
        Some(id) => id,
        None => {
            proof {
                assert(false);
            }
            String::new()
        },
    };
    Person {
        id,
        first_name: clone_name(first_name),
        middle_name: clone_name(middle_name),
        last_name: clone_name(last_name),
    }
}

/// Creates a person like [`person_create_exn`], answering `None` where that
/// function would refuse: when no name part holds a letter.
pub fn person_create(
    last_name: &Option<String>,
    first_name: &Option<String>,
    middle_name: &Option<String>,
) -> (r: Option<Person>)
    ensures
        r is None <==> spec_normalize(opt_view(*last_name), opt_view(*first_name), opt_view(*middle_name)) is None,
        r is None <==> !part_has_letter(opt_view(*last_name)) && !part_has_letter(opt_view(*first_name))
            && !part_has_letter(opt_view(*middle_name)),
        r matches Some(p) ==> {
            &&& Some(p.id@) == spec_normalize(opt_view(*last_name), opt_view(*first_name), opt_view(*middle_name))
            &&& opt_view(p.last_name) == opt_view(*last_name)
            &&& opt_view(p.first_name) == opt_view(*first_name)
            &&& opt_view(p.middle_name) == opt_view(*middle_name)
        },
{
    if name_part_has_letter(last_name) || name_part_has_letter(first_name) || name_part_has_letter(middle_name) {
        let _id = normalize(last_name, first_name, middle_name);
        Some(person_create_exn(last_name, first_name, middle_name))
    } else {
        proof {
            lemma_no_letter_normalizes_to_nothing(opt_view(*last_name), opt_view(*first_name), opt_view(*middle_name));
        }
        None
    }
}

} // verus!
