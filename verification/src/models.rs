//! Model lists between the daemon's agent and a GUI. The daemon flattens a
//! grouped list into wire entries that name their group; the GUI groups
//! them again, in the order in which each group first appears.

use vstd::prelude::*;

verus! {

/// One model as the wire carries it.
pub struct ModelInfoWire {
    pub id: String,
    pub name: String,
    pub description: Option<String>,
    /// The group it belongs to, in a grouped list.
    pub group: Option<String>,
}

/// A model list as the wire carries it.
pub struct ModelListWire {
    pub models: Vec<ModelInfoWire>,
}

/// One model as the agent presents it.
pub struct AgentModelInfo {
    pub id: String,
    pub name: String,
    pub description: Option<String>,
}

/// The models of one group, under its name.
pub struct AgentModelGroup {
    pub name: String,
    pub models: Vec<AgentModelInfo>,
}

/// A model list: flat, or in named groups (each name once, in display
/// order).
pub enum AgentModelList {
    Flat(Vec<AgentModelInfo>),
    Grouped(Vec<AgentModelGroup>),
}

pub open spec fn opt_view(o: Option<String>) -> Option<Seq<char>> {
    match o {
        Some(s) => Some(s@),
        None => None,
    }
}

impl View for AgentModelInfo {
    /// Id, name, description.
    type V = (Seq<char>, Seq<char>, Option<Seq<char>>);

    open spec fn view(&self) -> (Seq<char>, Seq<char>, Option<Seq<char>>) {
        (self.id@, self.name@, opt_view(self.description))
    }
}

impl View for ModelInfoWire {
    /// Id, name, description, group.
    type V = (Seq<char>, Seq<char>, Option<Seq<char>>, Option<Seq<char>>);

    open spec fn view(&self) -> (Seq<char>, Seq<char>, Option<Seq<char>>, Option<Seq<char>>) {
        (self.id@, self.name@, opt_view(self.description), opt_view(self.group))
    }
}

pub open spec fn infos_view(v: Seq<AgentModelInfo>) -> Seq<(Seq<char>, Seq<char>, Option<Seq<char>>)> {
    v.map_values(|m: AgentModelInfo| m@)
}

pub open spec fn wires_view(v: Seq<ModelInfoWire>) -> Seq<
    (Seq<char>, Seq<char>, Option<Seq<char>>, Option<Seq<char>>),
> {
    v.map_values(|m: ModelInfoWire| m@)
}

impl View for AgentModelGroup {
    type V = (Seq<char>, Seq<(Seq<char>, Seq<char>, Option<Seq<char>>)>);

    open spec fn view(&self) -> (Seq<char>, Seq<(Seq<char>, Seq<char>, Option<Seq<char>>)>) {
        (self.name@, infos_view(self.models@))
    }
}

pub open spec fn groups_view(v: Seq<AgentModelGroup>) -> Seq<
    (Seq<char>, Seq<(Seq<char>, Seq<char>, Option<Seq<char>>)>),
> {
    v.map_values(|g: AgentModelGroup| g@)
}

/// A wire entry without its group.
pub open spec fn info_of(w: (Seq<char>, Seq<char>, Option<Seq<char>>, Option<Seq<char>>)) -> (
    Seq<char>,
    Seq<char>,
    Option<Seq<char>>,
) {
    (w.0, w.1, w.2)
}

/// A model on the wire, with its group.
pub open spec fn wire_of(
    m: (Seq<char>, Seq<char>, Option<Seq<char>>),
    group: Option<Seq<char>>,
) -> (Seq<char>, Seq<char>, Option<Seq<char>>, Option<Seq<char>>) {
    (m.0, m.1, m.2, group)
}

/// The group a wire entry falls in on the GUI: its group, or the unnamed one.
pub open spec fn group_key(w: (Seq<char>, Seq<char>, Option<Seq<char>>, Option<Seq<char>>)) -> Seq<
    char,
> {
    match w.3 {
        Some(g) => g,
        None => Seq::empty(),
    }
}

/// Where the group named `name` stands in `groups`, or -1.
pub open spec fn group_index(
    groups: Seq<(Seq<char>, Seq<(Seq<char>, Seq<char>, Option<Seq<char>>)>)>,
    name: Seq<char>,
) -> int
    decreases groups.len(),
{
    if groups.len() == 0 {
        -1
    } else {
        let i = group_index(groups.drop_last(), name);
        if i >= 0 {
            i
        } else if groups.last().0 == name {
            groups.len() - 1
        } else {
            -1
        }
    }
}

/// `groups` with `m` added to the end of group `name`, which is opened at
/// the end when it is not there yet.
pub open spec fn add_to_group(
    groups: Seq<(Seq<char>, Seq<(Seq<char>, Seq<char>, Option<Seq<char>>)>)>,
    name: Seq<char>,
    m: (Seq<char>, Seq<char>, Option<Seq<char>>),
) -> Seq<(Seq<char>, Seq<(Seq<char>, Seq<char>, Option<Seq<char>>)>)> {
    let i = group_index(groups, name);
    if i >= 0 {
        groups.update(i, (name, groups[i].1.push(m)))
    } else {
        groups.push((name, seq![m]))
    }
}

/// The GUI's grouping of wire entries: by group, each group where its
/// first entry was, entries in wire order.
pub open spec fn grouped(s: Seq<(Seq<char>, Seq<char>, Option<Seq<char>>, Option<Seq<char>>)>) -> Seq<
    (Seq<char>, Seq<(Seq<char>, Seq<char>, Option<Seq<char>>)>),
>
    decreases s.len(),
{
    if s.len() == 0 {
        Seq::empty()
    } else {
        add_to_group(grouped(s.drop_last()), group_key(s.last()), info_of(s.last()))
    }
}

/// The daemon's flattening of groups: each group's models in order, each
/// tagged with its group's name.
pub open spec fn flattened(groups: Seq<(Seq<char>, Seq<(Seq<char>, Seq<char>, Option<Seq<char>>)>)>) -> Seq<
    (Seq<char>, Seq<char>, Option<Seq<char>>, Option<Seq<char>>),
>
    decreases groups.len(),
{
    if groups.len() == 0 {
        Seq::empty()
    } else {
        let g = groups.last();
        flattened(groups.drop_last()) + g.1.map_values(
            |m: (Seq<char>, Seq<char>, Option<Seq<char>>)| wire_of(m, Some(g.0)),
        )
    }
}

/// Whether some wire entry names a group.
pub open spec fn any_grouped(s: Seq<(Seq<char>, Seq<char>, Option<Seq<char>>, Option<Seq<char>>)>) -> bool {
    exists|i: int| 0 <= i < s.len() && (#[trigger] s[i]).3 is Some
}

/// Group names are distinct.
pub open spec fn distinct_names(groups: Seq<(Seq<char>, Seq<(Seq<char>, Seq<char>, Option<Seq<char>>)>)>) -> bool {
    forall|i: int, j: int| 0 <= i < j < groups.len() ==> (#[trigger] groups[i]).0 != (#[trigger] groups[j]).0
}

proof fn lemma_map_push<A, B>(s: Seq<A>, x: A, f: spec_fn(A) -> B)
    ensures
        s.push(x).map_values(f) == s.map_values(f).push(f(x)),
{
    assert(s.push(x).map_values(f) =~= s.map_values(f).push(f(x)));
}

proof fn lemma_map_update<A, B>(s: Seq<A>, i: int, x: A, f: spec_fn(A) -> B)
    requires
        0 <= i < s.len(),
    ensures
        s.update(i, x).map_values(f) == s.map_values(f).update(i, f(x)),
{
    assert(s.update(i, x).map_values(f) =~= s.map_values(f).update(i, f(x)));
}

proof fn lemma_group_index(
    groups: Seq<(Seq<char>, Seq<(Seq<char>, Seq<char>, Option<Seq<char>>)>)>,
    name: Seq<char>,
)
    ensures
        -1 <= group_index(groups, name) < groups.len(),
        group_index(groups, name) >= 0 ==> groups[group_index(groups, name)].0 == name,
        group_index(groups, name) >= 0 ==> forall|t: int|
            0 <= t < group_index(groups, name) ==> groups[t].0 != name,
        group_index(groups, name) < 0 ==> forall|t: int| 0 <= t < groups.len() ==> groups[t].0 != name,
    decreases groups.len(),
{
    if groups.len() > 0 {
        lemma_group_index(groups.drop_last(), name);
        let i = group_index(groups.drop_last(), name);
        if i >= 0 {
            assert forall|t: int| 0 <= t < i implies groups[t].0 != name by {
                assert(groups[t] == groups.drop_last()[t]);
            }
        } else {
            assert forall|t: int| 0 <= t < groups.len() - 1 implies groups[t].0 != name by {
                assert(groups[t] == groups.drop_last()[t]);
            }
        }
    }
}

/// The wire form of one model.
pub fn model_info_wire(info: AgentModelInfo, group: Option<String>) -> (w: ModelInfoWire)
    ensures
        w@ == wire_of(info@, opt_view(group)),
{
    ModelInfoWire { id: info.id, name: info.name, description: info.description, group }
}

/// The model a wire entry describes; its group is not part of it.
pub fn model_info_from_wire(wire: ModelInfoWire) -> (m: AgentModelInfo)
    ensures
        m@ == info_of(wire@),
{
    AgentModelInfo { id: wire.id, name: wire.name, description: wire.description }
}

fn clone_opt(o: &Option<String>) -> (c: Option<String>)
    ensures
        opt_view(c) == opt_view(*o),
{
    match o {
        Some(s) => Some(s.clone()),
        None => None,
    }
}

fn clone_info(m: &AgentModelInfo) -> (c: AgentModelInfo)
    ensures
        c@ == m@,
{
    AgentModelInfo { id: m.id.clone(), name: m.name.clone(), description: clone_opt(&m.description) }
}

fn clone_wire_info(w: &ModelInfoWire) -> (c: AgentModelInfo)
    ensures
        c@ == info_of(w@),
{
    AgentModelInfo { id: w.id.clone(), name: w.name.clone(), description: clone_opt(&w.description) }
}

/// The wire form of a model list: a flat list's models without a group; a
/// grouped list's models group by group, each naming its group.
pub fn model_list_wire(list: AgentModelList) -> (w: ModelListWire)
    ensures
        wires_view(w.models@) == match list {
            AgentModelList::Flat(models) => infos_view(models@).map_values(
                |m: (Seq<char>, Seq<char>, Option<Seq<char>>)| wire_of(m, None),
            ),
            AgentModelList::Grouped(groups) => flattened(groups_view(groups@)),
        },
{
    match list {
        AgentModelList::Flat(models) => {
            let mut out: Vec<ModelInfoWire> = Vec::new();
            let mut k: usize = 0;
            while k < models.len()
                invariant
                    k <= models@.len(),
                    wires_view(out@) == infos_view(models@.take(k as int)).map_values(
                        |m: (Seq<char>, Seq<char>, Option<Seq<char>>)| wire_of(m, None),
                    ),
                decreases models@.len() - k,
            {
                let w = model_info_wire(clone_info(&models[k]), None);
                let ghost before = out@;
                out.push(w);
                proof {
                    let untagged = |m: (Seq<char>, Seq<char>, Option<Seq<char>>)| wire_of(m, None);
                    lemma_map_push(before, w, |m: ModelInfoWire| m@);
                    assert(models@.take(k + 1) =~= models@.take(k as int).push(models@[k as int]));
                    lemma_map_push(models@.take(k as int), models@[k as int], |m: AgentModelInfo| m@);
                    lemma_map_push(infos_view(models@.take(k as int)), models@[k as int]@, untagged);
                }
                k += 1;
            }
            assert(models@.take(models@.len() as int) =~= models@);
            ModelListWire { models: out }
        },
        AgentModelList::Grouped(groups) => {
            let ghost gv = groups_view(groups@);
            let mut out: Vec<ModelInfoWire> = Vec::new();
            let mut g: usize = 0;
            while g < groups.len()
                invariant
                    g <= groups@.len(),
                    gv == groups_view(groups@),
                    wires_view(out@) == flattened(gv.take(g as int)),
                decreases groups@.len() - g,
            {
                let group = &groups[g];
                let ghost base = wires_view(out@);
                let ghost tagged = group@.1.map_values(
                    |m: (Seq<char>, Seq<char>, Option<Seq<char>>)| wire_of(m, Some(group@.0)),
                );
                let mut k: usize = 0;
                while k < group.models.len()
                    invariant
                        k <= group.models@.len(),
                        tagged == group@.1.map_values(
                            |m: (Seq<char>, Seq<char>, Option<Seq<char>>)| wire_of(m, Some(group@.0)),
                        ),
                        group@.1 == infos_view(group.models@),
                        wires_view(out@) == base + tagged.take(k as int),
                    decreases group.models@.len() - k,
                {
                    let w = model_info_wire(clone_info(&group.models[k]), Some(group.name.clone()));
                    let ghost before = out@;
                    out.push(w);
                    proof {
                        lemma_map_push(before, w, |m: ModelInfoWire| m@);
                        assert(tagged[k as int] == w@);
                        assert(tagged.take(k + 1) =~= tagged.take(k as int).push(w@));
                        assert(wires_view(out@) =~= base + tagged.take(k + 1));
                    }
                    k += 1;
                }
                proof {
                    assert(tagged.take(group.models@.len() as int) =~= tagged);
                    assert(gv.take(g + 1).drop_last() =~= gv.take(g as int));
                    assert(gv[g as int] == group@);
                }
                g += 1;
            }
            assert(gv.take(groups@.len() as int) =~= gv);
            ModelListWire { models: out }
        },
    }
}

/// The GUI's model list: grouped by the entries' groups (an entry without
/// one in the unnamed group) when any entry names a group, otherwise flat.
pub fn model_list_from_wire(wire: ModelListWire) -> (list: AgentModelList)
    ensures
        any_grouped(wires_view(wire.models@)) ==> (list matches AgentModelList::Grouped(groups)
            && groups_view(groups@) == grouped(wires_view(wire.models@))),
        !any_grouped(wires_view(wire.models@)) ==> (list matches AgentModelList::Flat(models)
            && infos_view(models@) == wires_view(wire.models@).map_values(
            |w: (Seq<char>, Seq<char>, Option<Seq<char>>, Option<Seq<char>>)| info_of(w),
        )),
{
    let ghost s = wires_view(wire.models@);
    let mut any = false;
    let mut k: usize = 0;
    while k < wire.models.len()
        invariant
            k <= wire.models@.len(),
            s == wires_view(wire.models@),
            any == exists|i: int| 0 <= i < k && (#[trigger] s[i]).3 is Some,
        decreases wire.models@.len() - k,
    {
        if wire.models[k].group.is_some() {
            assert(s[k as int].3 is Some);
            any = true;
        }
        k += 1;
    }
    if !any {
        let mut models: Vec<AgentModelInfo> = Vec::new();
        let mut k: usize = 0;
        while k < wire.models.len()
            invariant
                k <= wire.models@.len(),
                s == wires_view(wire.models@),
                infos_view(models@) == s.take(k as int).map_values(
                    |w: (Seq<char>, Seq<char>, Option<Seq<char>>, Option<Seq<char>>)| info_of(w),
                ),
            decreases wire.models@.len() - k,
        {
            let m = clone_wire_info(&wire.models[k]);
            let ghost before = models@;
            models.push(m);
            proof {
                lemma_map_push(before, m, |m: AgentModelInfo| m@);
                assert(s.take(k + 1) =~= s.take(k as int).push(s[k as int]));
                lemma_map_push(
                    s.take(k as int),
                    s[k as int],
                    |w: (Seq<char>, Seq<char>, Option<Seq<char>>, Option<Seq<char>>)| info_of(w),
                );
            }
            k += 1;
        }
        assert(s.take(s.len() as int) =~= s);
        return AgentModelList::Flat(models);
    }
    let mut groups: Vec<AgentModelGroup> = Vec::new();
    let mut k: usize = 0;
    while k < wire.models.len()
        invariant
            k <= wire.models@.len(),
            s == wires_view(wire.models@),
            groups_view(groups@) == grouped(s.take(k as int)),
        decreases wire.models@.len() - k,
    {
        let entry = &wire.models[k];
        let key = match &entry.group {
            Some(g) => g.clone(),
            None => String::new(),
        };
        let ghost gv = groups_view(groups@);
        assert(key@ == group_key(s[k as int]));
        proof {
            lemma_group_index(gv, key@);
        }
        let mut j: usize = 0;
        let mut found = false;
        while j < groups.len()
            invariant_except_break
                !found,
            invariant
                j <= groups@.len(),
                gv == groups_view(groups@),
                forall|t: int| 0 <= t < j ==> gv[t].0 != key@,
            ensures
                found ==> j < groups@.len() && gv[j as int].0 == key@,
                !found ==> j == groups@.len(),
            decreases groups@.len() - j,
        {
            assert(gv[j as int] == groups@[j as int]@);
            if groups[j].name == key {
                found = true;
                break;
            }
            j += 1;
        }
        let m = clone_wire_info(entry);
        assert(s.take(k + 1).drop_last() =~= s.take(k as int));
        assert(s.take(k + 1).last() == s[k as int]);
        if found {
            assert(group_index(gv, key@) == j as int);
            let mut all = Vec::new();
            std::mem::swap(&mut all, &mut groups);
            let ghost start = all@;
            let mut group = all.remove(j);
            let ghost old_models = group.models@;
            group.models.push(m);
            proof {
                lemma_map_push(old_models, m, |m: AgentModelInfo| m@);
                assert(group@ == (gv[j as int].0, gv[j as int].1.push(m@)));
            }
            all.insert(j, group);
            proof {
                assert(all@ =~= start.update(j as int, group));
                lemma_map_update(start, j as int, group, |g: AgentModelGroup| g@);
            }
            groups = all;
            assert(groups_view(groups@) =~= add_to_group(gv, key@, info_of(s[k as int])));
        } else {
            assert(group_index(gv, key@) == -1);
            let mut fresh: Vec<AgentModelInfo> = Vec::new();
            fresh.push(m);
            assert(infos_view(fresh@) =~= seq![info_of(s[k as int])]);
            let ghost before = groups@;
            let group = AgentModelGroup { name: key, models: fresh };
            groups.push(group);
            proof {
                lemma_map_push(before, group, |g: AgentModelGroup| g@);
            }
            assert(groups_view(groups@) =~= add_to_group(gv, key@, info_of(s[k as int])));
        }
        k += 1;
    }
    assert(s.take(s.len() as int) =~= s);
    AgentModelList::Grouped(groups)
}

proof fn lemma_grouped_append_group(
    before: Seq<(Seq<char>, Seq<(Seq<char>, Seq<char>, Option<Seq<char>>)>)>,
    name: Seq<char>,
    ms: Seq<(Seq<char>, Seq<char>, Option<Seq<char>>)>,
    k: int,
)
    requires
        grouped(flattened(before)) == before,
        forall|t: int| 0 <= t < before.len() ==> before[t].0 != name,
        0 <= k <= ms.len(),
    ensures
        grouped(
            flattened(before) + ms.take(k).map_values(
                |m: (Seq<char>, Seq<char>, Option<Seq<char>>)| wire_of(m, Some(name)),
            ),
        ) == if k == 0 {
            before
        } else {
            before.push((name, ms.take(k)))
        },
    decreases k,
{
    let tag = |m: (Seq<char>, Seq<char>, Option<Seq<char>>)| wire_of(m, Some(name));
    let f = flattened(before) + ms.take(k).map_values(tag);
    if k == 0 {
        assert(f =~= flattened(before));
    } else {
        lemma_grouped_append_group(before, name, ms, k - 1);
        let prev = flattened(before) + ms.take(k - 1).map_values(tag);
        assert(f.drop_last() =~= prev);
        assert(f.last() == wire_of(ms[k - 1], Some(name)));
        assert(group_key(f.last()) == name);
        assert(info_of(f.last()) == ms[k - 1]);
        let g = grouped(prev);
        lemma_group_index(g, name);
        if k == 1 {
            assert(g == before);
            assert(group_index(g, name) == -1);
            assert(seq![ms[0]] =~= ms.take(1));
        } else {
            assert(g == before.push((name, ms.take(k - 1))));
            assert(g[before.len() as int].0 == name);
            let i = group_index(g, name);
            if 0 <= i < before.len() {
                assert(g[i] == before[i]);
            }
            assert(i == before.len());
            assert(ms.take(k - 1).push(ms[k - 1]) =~= ms.take(k));
            assert(g.update(i, (name, g[i].1.push(ms[k - 1]))) =~= before.push((name, ms.take(k))));
        }
    }
}

/// What the GUI makes of a grouped list the daemon sent is that list again,
/// provided no group is empty (an empty group sends nothing) and each name
/// occurs once.
pub proof fn lemma_grouped_round_trip(groups: Seq<(Seq<char>, Seq<(Seq<char>, Seq<char>, Option<Seq<char>>)>)>)
    requires
        distinct_names(groups),
        forall|i: int| 0 <= i < groups.len() ==> (#[trigger] groups[i]).1.len() > 0,
    ensures
        grouped(flattened(groups)) == groups,
        groups.len() > 0 ==> any_grouped(flattened(groups)),
    decreases groups.len(),
{
    if groups.len() > 0 {
        let before = groups.drop_last();
        let g = groups.last();
        assert forall|i: int, j: int| 0 <= i < j < before.len() implies (#[trigger] before[i]).0
            != (#[trigger] before[j]).0 by {
            assert(before[i] == groups[i] && before[j] == groups[j]);
        }
        assert forall|i: int| 0 <= i < before.len() implies (#[trigger] before[i]).1.len() > 0 by {
            assert(before[i] == groups[i]);
        }
        lemma_grouped_round_trip(before);
        assert forall|t: int| 0 <= t < before.len() implies before[t].0 != g.0 by {
            assert(before[t] == groups[t]);
        }
        lemma_grouped_append_group(before, g.0, g.1, g.1.len() as int);
        assert(g.1.take(g.1.len() as int) =~= g.1);
        assert(before.push((g.0, g.1)) =~= groups);
        let tag = |m: (Seq<char>, Seq<char>, Option<Seq<char>>)| wire_of(m, Some(g.0));
        let f = flattened(groups);
        assert(f == flattened(before) + g.1.map_values(tag));
        assert(f[f.len() - 1] == wire_of(g.1[g.1.len() - 1], Some(g.0)));
        assert(f[f.len() - 1].3 is Some);
    }
}

/// A flat list survives the trip to the GUI unchanged.
pub proof fn lemma_flat_round_trip(models: Seq<(Seq<char>, Seq<char>, Option<Seq<char>>)>)
    ensures
        !any_grouped(models.map_values(|m: (Seq<char>, Seq<char>, Option<Seq<char>>)| wire_of(m, None))),
        models.map_values(|m: (Seq<char>, Seq<char>, Option<Seq<char>>)| wire_of(m, None)).map_values(
            |w: (Seq<char>, Seq<char>, Option<Seq<char>>, Option<Seq<char>>)| info_of(w),
        ) == models,
{
    let ws = models.map_values(|m: (Seq<char>, Seq<char>, Option<Seq<char>>)| wire_of(m, None));
    assert forall|i: int| 0 <= i < ws.len() implies !((#[trigger] ws[i]).3 is Some) by {}
    assert(ws.map_values(
        |w: (Seq<char>, Seq<char>, Option<Seq<char>>, Option<Seq<char>>)| info_of(w),
    ) =~= models);
}

} // verus!
