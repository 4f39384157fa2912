//! The permission model: CRUD-style access rules, each carrying a guard
//! expression verbatim, rendered in a fixed canonical order regardless of
//! the order they were supplied in.

use vstd::prelude::*;
use vstd::string::*;

use crate::text::ends_with_semicolon;
use crate::text::join_space;
use crate::text::join_with_space;
use crate::text::lemma_concat_semicolon_free;
use crate::text::lemma_join_space_semicolon_free;
use crate::text::views_of_strings;

verus! {

/// A guard expression, stored verbatim and never evaluated here.
#[derive(Debug)]
pub struct PermissionData {
    pub value: String,
}

impl From<String> for PermissionData {
    fn from(value: String) -> (r: Self) {
        PermissionData { value }
    }
}

impl vstd::std_specs::convert::FromSpecImpl<String> for PermissionData {
    open spec fn obeys_from_spec() -> bool {
        true
    }

    open spec fn from_spec(value: String) -> Self {
        PermissionData { value }
    }
}

impl PermissionData {
    /// The guard expression as text.
    pub fn to_string(&self) -> (r: String)
        ensures
            r@ == self.value@,
    {
        self.value.clone()
    }
}

/// One access rule: the operation it guards and the guard expression.
#[derive(Debug)]
pub enum PermissionInfo {
    Select(PermissionData),
    Create(PermissionData),
    Update(PermissionData),
    Delete(PermissionData),
}

/// The four access kinds, in their canonical rendering order.
pub enum PermissionKind {
    Select,
    Create,
    Update,
    Delete,
}

/// The kind of operation a rule guards.
pub open spec fn kind_of(p: PermissionInfo) -> PermissionKind {
    match p {
        PermissionInfo::Select(_) => PermissionKind::Select,
        PermissionInfo::Create(_) => PermissionKind::Create,
        PermissionInfo::Update(_) => PermissionKind::Update,
        PermissionInfo::Delete(_) => PermissionKind::Delete,
    }
}

/// The guard expression a rule carries.
pub open spec fn guard_of(p: PermissionInfo) -> Seq<char> {
    match p {
        PermissionInfo::Select(d) => d.value@,
        PermissionInfo::Create(d) => d.value@,
        PermissionInfo::Update(d) => d.value@,
        PermissionInfo::Delete(d) => d.value@,
    }
}

/// The rendered clause `FOR <kind> <guard>` of one rule.
pub open spec fn permission_clause(p: PermissionInfo) -> Seq<char> {
    match p {
        PermissionInfo::Select(d) => "FOR select "@ + d.value@,
        PermissionInfo::Create(d) => "FOR create "@ + d.value@,
        PermissionInfo::Update(d) => "FOR update "@ + d.value@,
        PermissionInfo::Delete(d) => "FOR delete "@ + d.value@,
    }
}

/// The last rule of the given kind, which wins when a kind is supplied
/// more than once.
pub open spec fn last_with_kind(ps: Seq<PermissionInfo>, k: PermissionKind) -> Option<
    PermissionInfo,
>
    decreases ps.len(),
{
    if ps.len() == 0 {
        None
    } else if kind_of(ps.last()) == k {
        Some(ps.last())
    } else {
        last_with_kind(ps.drop_last(), k)
    }
}

/// The clause of a kind's winning rule, or nothing when the kind is absent.
pub open spec fn clause_of_winner(o: Option<PermissionInfo>) -> Seq<Seq<char>> {
    match o {
        Some(p) => seq![permission_clause(p)],
        None => Seq::empty(),
    }
}

/// The winning clauses in the canonical order select, create, update,
/// delete; kinds with no rule are omitted.
pub open spec fn canonical_clauses(ps: Seq<PermissionInfo>) -> Seq<Seq<char>> {
    clause_of_winner(last_with_kind(ps, PermissionKind::Select)) + clause_of_winner(
        last_with_kind(ps, PermissionKind::Create),
    ) + clause_of_winner(last_with_kind(ps, PermissionKind::Update)) + clause_of_winner(
        last_with_kind(ps, PermissionKind::Delete),
    )
}

/// The full permission text for a rule list, or nothing when the list is
/// empty, so the caller can omit the whole `PERMISSIONS` clause.
pub open spec fn format_permissions_view(ps: Seq<PermissionInfo>) -> Option<Seq<char>> {
    if ps.len() == 0 {
        None
    } else {
        Some(join_space(canonical_clauses(ps)))
    }
}

impl PermissionInfo {
    /// Render this rule as its `FOR <kind> <guard>` clause.
    pub fn render(&self) -> (r: String)
        ensures
            r@ == permission_clause(*self),
    {
        let mut r = String::new();
        match self {
            PermissionInfo::Select(d) => {
                r.append("FOR select ");
                r.append(d.value.as_str());
            },
            PermissionInfo::Create(d) => {
                r.append("FOR create ");
                r.append(d.value.as_str());
            },
            PermissionInfo::Update(d) => {
                r.append("FOR update ");
                r.append(d.value.as_str());
            },
            PermissionInfo::Delete(d) => {
                r.append("FOR delete ");
                r.append(d.value.as_str());
            },
        }
        r
    }
}

/// Whether a guard slot holds exactly the winning rule's guard.
spec fn slot_matches(slot: Option<String>, winner: Option<PermissionInfo>) -> bool {
    match winner {
        Some(p) => slot matches Some(s) && s@ == guard_of(p),
        None => slot is None,
    }
}

/// A winning rule has the kind it won for and comes from the list; when no
/// rule wins, no rule of that kind is in the list.
pub proof fn lemma_last_with_kind_sound(ps: Seq<PermissionInfo>, k: PermissionKind)
    ensures
        match last_with_kind(ps, k) {
            Some(p) => kind_of(p) == k && ps.contains(p),
            None => forall|i: int| 0 <= i < ps.len() ==> kind_of(ps[i]) != k,
        },
    decreases ps.len(),
{
    if ps.len() > 0 {
        if kind_of(ps.last()) == k {
            assert(ps[ps.len() - 1] == ps.last());
            assert(ps.contains(ps.last()));
        } else {
            lemma_last_with_kind_sound(ps.drop_last(), k);
            match last_with_kind(ps.drop_last(), k) {
                Some(p) => {
                    let j = choose|j: int|
                        0 <= j < ps.drop_last().len() && ps.drop_last()[j] == p;
                    assert(ps[j] == p);
                    assert(ps.contains(p));
                },
                None => {
                    assert forall|i: int| 0 <= i < ps.len() implies kind_of(ps[i]) != k by {
                        if i < ps.len() - 1 {
                            assert(ps.drop_last()[i] == ps[i]);
                        }
                    }
                },
            }
        }
    }
}

/// No two rules in the list guard the same kind of operation.
pub open spec fn distinct_kinds(ps: Seq<PermissionInfo>) -> bool {
    forall|i: int, j: int| 0 <= i < j < ps.len() ==> kind_of(ps[i]) != kind_of(ps[j])
}

/// With distinct kinds, the winner for a kind is the one rule of that kind.
proof fn lemma_last_with_kind_unique(ps: Seq<PermissionInfo>, k: PermissionKind, p: PermissionInfo)
    requires
        distinct_kinds(ps),
        ps.contains(p),
        kind_of(p) == k,
    ensures
        last_with_kind(ps, k) == Some(p),
    decreases ps.len(),
{
    let i = choose|i: int| 0 <= i < ps.len() && ps[i] == p;
    if kind_of(ps.last()) == k {
        if i < ps.len() - 1 {
            assert(kind_of(ps[i]) != kind_of(ps[ps.len() - 1]));
            assert(false);
        }
        assert(ps.last() == p);
    } else {
        assert(i != ps.len() - 1);
        assert(ps.drop_last()[i] == ps[i]);
        assert(ps.drop_last().contains(p));
        assert(distinct_kinds(ps.drop_last())) by {
            assert forall|a: int, b: int| 0 <= a < b < ps.drop_last().len() implies kind_of(
                ps.drop_last()[a],
            ) != kind_of(ps.drop_last()[b]) by {
                assert(ps.drop_last()[a] == ps[a]);
                assert(ps.drop_last()[b] == ps[b]);
            }
        }
        lemma_last_with_kind_unique(ps.drop_last(), k, p);
    }
}

/// Two lists with the same rules have the same winner for each kind, when
/// no kind appears twice in either.
proof fn lemma_winners_agree(
    ps1: Seq<PermissionInfo>,
    ps2: Seq<PermissionInfo>,
    k: PermissionKind,
)
    requires
        ps1.to_multiset() == ps2.to_multiset(),
        distinct_kinds(ps1),
        distinct_kinds(ps2),
    ensures
        last_with_kind(ps1, k) == last_with_kind(ps2, k),
{
    broadcast use vstd::seq_lib::group_to_multiset_ensures;

    lemma_last_with_kind_sound(ps1, k);
    lemma_last_with_kind_sound(ps2, k);
    match last_with_kind(ps1, k) {
        Some(p) => {
            assert(ps1.to_multiset().count(p) > 0);
            assert(ps2.to_multiset().count(p) > 0);
            assert(ps2.contains(p));
            lemma_last_with_kind_unique(ps2, k, p);
        },
        None => {
            match last_with_kind(ps2, k) {
                Some(q) => {
                    assert(ps2.to_multiset().count(q) > 0);
                    assert(ps1.to_multiset().count(q) > 0);
                    assert(ps1.contains(q));
                    let i = choose|i: int| 0 <= i < ps1.len() && ps1[i] == q;
                    assert(kind_of(ps1[i]) != k);
                    assert(false);
                },
                None => {},
            }
        },
    }
}

/// The permission text does not depend on the order the rules were supplied
/// in: any two arrangements of the same rules render identically, as long
/// as no kind is supplied twice.
pub proof fn lemma_format_permissions_order_insensitive(
    ps1: Seq<PermissionInfo>,
    ps2: Seq<PermissionInfo>,
)
    requires
        ps1.to_multiset() == ps2.to_multiset(),
        distinct_kinds(ps1),
        distinct_kinds(ps2),
    ensures
        format_permissions_view(ps1) == format_permissions_view(ps2),
{
    broadcast use vstd::seq_lib::group_to_multiset_ensures;

    assert(ps1.len() == ps1.to_multiset().len());
    assert(ps2.len() == ps2.to_multiset().len());
    lemma_winners_agree(ps1, ps2, PermissionKind::Select);
    lemma_winners_agree(ps1, ps2, PermissionKind::Create);
    lemma_winners_agree(ps1, ps2, PermissionKind::Update);
    lemma_winners_agree(ps1, ps2, PermissionKind::Delete);
}

/// A nonempty rule list always yields at least one winning clause.
proof fn lemma_canonical_clauses_nonempty(ps: Seq<PermissionInfo>)
    requires
        ps.len() > 0,
    ensures
        canonical_clauses(ps).len() > 0,
{
    match kind_of(ps.last()) {
        PermissionKind::Select => {
            assert(last_with_kind(ps, PermissionKind::Select) is Some);
        },
        PermissionKind::Create => {
            assert(last_with_kind(ps, PermissionKind::Create) is Some);
        },
        PermissionKind::Update => {
            assert(last_with_kind(ps, PermissionKind::Update) is Some);
        },
        PermissionKind::Delete => {
            assert(last_with_kind(ps, PermissionKind::Delete) is Some);
        },
    }
}

/// One winning clause is nonempty and keeps the guard's freedom from a
/// trailing semicolon.
proof fn lemma_winner_clause_semicolon_free(ps: Seq<PermissionInfo>, k: PermissionKind)
    requires
        forall|i: int| 0 <= i < ps.len() ==> !ends_with_semicolon(guard_of(ps[i])),
    ensures
        last_with_kind(ps, k) matches Some(p) ==> (permission_clause(p).len() > 0
            && !ends_with_semicolon(permission_clause(p))),
{
    reveal_strlit("FOR select ");
    reveal_strlit("FOR create ");
    reveal_strlit("FOR update ");
    reveal_strlit("FOR delete ");
    lemma_last_with_kind_sound(ps, k);
    match last_with_kind(ps, k) {
        Some(p) => {
            let i = choose|i: int| 0 <= i < ps.len() && ps[i] == p;
            assert(!ends_with_semicolon(guard_of(ps[i])));
            match p {
                PermissionInfo::Select(d) => {
                    lemma_concat_semicolon_free("FOR select "@, d.value@);
                },
                PermissionInfo::Create(d) => {
                    lemma_concat_semicolon_free("FOR create "@, d.value@);
                },
                PermissionInfo::Update(d) => {
                    lemma_concat_semicolon_free("FOR update "@, d.value@);
                },
                PermissionInfo::Delete(d) => {
                    lemma_concat_semicolon_free("FOR delete "@, d.value@);
                },
            }
        },
        None => {},
    }
}

/// When no guard ends in a semicolon, the rendered permission text of a
/// nonempty rule list is nonempty and does not end in a semicolon either.
pub proof fn lemma_permission_text_semicolon_free(ps: Seq<PermissionInfo>)
    requires
        ps.len() > 0,
        forall|i: int| 0 <= i < ps.len() ==> !ends_with_semicolon(guard_of(ps[i])),
    ensures
        join_space(canonical_clauses(ps)).len() > 0,
        !ends_with_semicolon(join_space(canonical_clauses(ps))),
{
    lemma_canonical_clauses_nonempty(ps);
    lemma_winner_clause_semicolon_free(ps, PermissionKind::Select);
    lemma_winner_clause_semicolon_free(ps, PermissionKind::Create);
    lemma_winner_clause_semicolon_free(ps, PermissionKind::Update);
    lemma_winner_clause_semicolon_free(ps, PermissionKind::Delete);
    let cs = canonical_clauses(ps);
    assert forall|i: int| 0 <= i < cs.len() implies cs[i].len() > 0 && !ends_with_semicolon(
        cs[i],
    ) by {
        let c1 = clause_of_winner(last_with_kind(ps, PermissionKind::Select));
        let c2 = clause_of_winner(last_with_kind(ps, PermissionKind::Create));
        let c3 = clause_of_winner(last_with_kind(ps, PermissionKind::Update));
        let c4 = clause_of_winner(last_with_kind(ps, PermissionKind::Delete));
        assert(cs == c1 + c2 + c3 + c4);
        if i < c1.len() {
            assert(cs[i] == c1[0]);
        } else if i < c1.len() + c2.len() {
            assert(cs[i] == c2[0]);
        } else if i < c1.len() + c2.len() + c3.len() {
            assert(cs[i] == c3[0]);
        } else {
            assert(cs[i] == c4[0]);
        }
    }
    lemma_join_space_semicolon_free(cs);
}

/// Render a rule list to the full permission text. The last rule of each
/// kind wins, the kinds are emitted in the canonical order select, create,
/// update, delete joined by single spaces, and an empty list yields nothing.
pub fn format_permissions(permissions: Vec<PermissionInfo>) -> (r: Option<String>)
    ensures
        (r is None) == (permissions@.len() == 0),
        r matches Some(s) ==> s@ == join_space(canonical_clauses(permissions@)),
{
    render_permissions(&permissions)
}

/// Render a borrowed rule list to the full permission text, as
/// `format_permissions` does.
pub fn render_permissions(permissions: &Vec<PermissionInfo>) -> (r: Option<String>)
    ensures
        (r is None) == (permissions@.len() == 0),
        r matches Some(s) ==> s@ == join_space(canonical_clauses(permissions@)),
{
    let ghost ps = permissions@;
    let mut select_guard: Option<String> = None;
    let mut create_guard: Option<String> = None;
    let mut update_guard: Option<String> = None;
    let mut delete_guard: Option<String> = None;
    let mut i: usize = 0;
    proof {
        assert(ps.take(0) =~= Seq::<PermissionInfo>::empty());
    }
    while i < permissions.len()
        invariant
            permissions@ == ps,
            i <= ps.len(),
            slot_matches(select_guard, last_with_kind(ps.take(i as int), PermissionKind::Select)),
            slot_matches(create_guard, last_with_kind(ps.take(i as int), PermissionKind::Create)),
            slot_matches(update_guard, last_with_kind(ps.take(i as int), PermissionKind::Update)),
            slot_matches(delete_guard, last_with_kind(ps.take(i as int), PermissionKind::Delete)),
        decreases ps.len() - i,
    {
        match &permissions[i] {
            PermissionInfo::Select(d) => select_guard = Some(d.value.clone()),
            PermissionInfo::Create(d) => create_guard = Some(d.value.clone()),
            PermissionInfo::Update(d) => update_guard = Some(d.value.clone()),
            PermissionInfo::Delete(d) => delete_guard = Some(d.value.clone()),
        }
        proof {
            assert(ps.take(i as int + 1).drop_last() =~= ps.take(i as int));
            assert(ps.take(i as int + 1).last() == ps[i as int]);
        }
        i += 1;
    }
    proof {
        assert(ps.take(ps.len() as int) =~= ps);
    }
    proof {
        lemma_last_with_kind_sound(ps, PermissionKind::Select);
        lemma_last_with_kind_sound(ps, PermissionKind::Create);
        lemma_last_with_kind_sound(ps, PermissionKind::Update);
        lemma_last_with_kind_sound(ps, PermissionKind::Delete);
    }
    let ghost sel_clause = clause_of_winner(last_with_kind(ps, PermissionKind::Select));
    let ghost cre_clause = clause_of_winner(last_with_kind(ps, PermissionKind::Create));
    let ghost upd_clause = clause_of_winner(last_with_kind(ps, PermissionKind::Update));
    let ghost del_clause = clause_of_winner(last_with_kind(ps, PermissionKind::Delete));
    let mut parts: Vec<String> = Vec::new();
    match select_guard {
        Some(g) => {
            let mut c = String::new();
            c.append("FOR select ");
            c.append(g.as_str());
            proof {
                let p = last_with_kind(ps, PermissionKind::Select)->0;
                assert(p matches PermissionInfo::Select(_));
                assert(c@ == permission_clause(p));
            }
            parts.push(c);
        },
        None => {},
    }
    proof {
        assert(views_of_strings(parts@) =~= sel_clause);
    }
    match create_guard {
        Some(g) => {
            let mut c = String::new();
            c.append("FOR create ");
            c.append(g.as_str());
            proof {
                let p = last_with_kind(ps, PermissionKind::Create)->0;
                assert(p matches PermissionInfo::Create(_));
                assert(c@ == permission_clause(p));
            }
            parts.push(c);
        },
        None => {},
    }
    proof {
        assert(views_of_strings(parts@) =~= sel_clause + cre_clause);
    }
    match update_guard {
        Some(g) => {
            let mut c = String::new();
            c.append("FOR update ");
            c.append(g.as_str());
            proof {
                let p = last_with_kind(ps, PermissionKind::Update)->0;
                assert(p matches PermissionInfo::Update(_));
                assert(c@ == permission_clause(p));
            }
            parts.push(c);
        },
        None => {},
    }
    proof {
        assert(views_of_strings(parts@) =~= sel_clause + cre_clause + upd_clause);
    }
    match delete_guard {
        Some(g) => {
            let mut c = String::new();
            c.append("FOR delete ");
            c.append(g.as_str());
            proof {
                let p = last_with_kind(ps, PermissionKind::Delete)->0;
                assert(p matches PermissionInfo::Delete(_));
                assert(c@ == permission_clause(p));
            }
            parts.push(c);
        },
        None => {},
    }
    proof {
        assert(views_of_strings(parts@) =~= sel_clause + cre_clause + upd_clause + del_clause);
        assert(views_of_strings(parts@) =~= canonical_clauses(ps));
        if ps.len() > 0 {
            lemma_canonical_clauses_nonempty(ps);
        }
    }
    if parts.len() == 0 {
        None
    } else {
        Some(join_with_space(&parts))
    }
}

} // verus!
