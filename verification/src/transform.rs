//! Copying a clip's transform onto others: its position, scale, crop and the rest as it
//! stores them, and each format's own.
use crate::doc::{
    get_param, item_of, param_of, place_of, FormatVariant, Item, ItemId, ItemModel, Op, OpModel, ParamModel,
    ParamTarget, SeqId, Sequence, SequenceModel, Source, TrackKind, VariantId, VariantModel,
};
use crate::nesting::override_for;
use crate::seqs::{first_from, first_is_right, first_where, some_is_first, views};
use crate::text::same;
use vstd::prelude::*;

verus! {

/// A setting as a clip stores it (`None`: it's at its default).
pub struct Stored {
    pub id: String,
    pub source: Option<Source>,
}

#[verifier::ext_equal]
pub struct StoredModel {
    pub id: Seq<char>,
    pub source: Option<Source>,
}

impl View for Stored {
    type V = StoredModel;

    open spec fn view(&self) -> StoredModel {
        StoredModel { id: self.id@, source: self.source }
    }
}

/// One format's own settings for the clip.
pub struct Own {
    pub variant: VariantId,
    pub list: Vec<Stored>,
}

#[verifier::ext_equal]
pub struct OwnModel {
    pub variant: VariantId,
    pub list: Seq<StoredModel>,
}

impl View for Own {
    type V = OwnModel;

    open spec fn view(&self) -> OwnModel {
        OwnModel { variant: self.variant, list: views(self.list@) }
    }
}

/// A copied transform: each of its settings as the clip stored it, and the same for each
/// format's own.
pub struct TransformCopy {
    pub base: Vec<Stored>,
    pub overrides: Vec<Own>,
}

#[verifier::ext_equal]
pub struct TransformModel {
    pub base: Seq<StoredModel>,
    pub overrides: Seq<OwnModel>,
}

impl View for TransformCopy {
    type V = TransformModel;

    open spec fn view(&self) -> TransformModel {
        TransformModel { base: views(self.base@), overrides: views(self.overrides@) }
    }
}

/// How a format stores the setting of its own for the clip.
pub open spec fn own_setting(v: VariantModel, item: ItemId, id: Seq<char>) -> Option<Source> {
    match first_where(v.overrides, override_for(item)) {
        Some(i) => param_of(v.overrides[i].params, id),
        None => None,
    }
}

fn get_own(v: &FormatVariant, item: ItemId, id: &str) -> (out: Option<Source>)
    ensures
        out == own_setting(v@, item, id@),
{
    let ghost all = views(v.overrides@);
    let ghost p = override_for(item);
    let mut i: usize = 0;
    while i < v.overrides.len()
        invariant
            all == views(v.overrides@),
            p == override_for(item),
            i <= v.overrides@.len(),
            first_where(all, p) == first_from(all, p, i as int),
        decreases v.overrides@.len() - i,
    {
        assert(all[i as int] == v.overrides@[i as int]@);
        if v.overrides[i].item == item {
            return get_param(&v.overrides[i].params, id);
        }
        i = i + 1;
    }
    None
}

// ---- copying ----

pub open spec fn base_of(params: Seq<ParamModel>, ids: Seq<Seq<char>>) -> Seq<StoredModel> {
    Seq::new(ids.len(), |k: int| StoredModel { id: ids[k], source: param_of(params, ids[k]) })
}

pub open spec fn own_of(v: VariantModel, item: ItemId, ids: Seq<Seq<char>>) -> OwnModel {
    OwnModel {
        variant: v.id,
        list: Seq::new(
            ids.len(),
            |k: int| StoredModel { id: ids[k], source: own_setting(v, item, ids[k]) },
        ),
    }
}

/// What's copied of the clip: the settings `ids`.
pub open spec fn copy_of(s: SequenceModel, it: ItemModel, item: ItemId, ids: Seq<Seq<char>>) -> TransformModel {
    TransformModel {
        base: base_of(it.params, ids),
        overrides: Seq::new(s.variants.len(), |k: int| own_of(s.variants[k], item, ids)),
    }
}

/// Copies the clip's transform: the settings `ids`, keyframes and each format's own ones
/// with it.
pub fn copy_transform(s: &Sequence, item: ItemId, ids: &Vec<String>) -> (out: Option<TransformCopy>)
    ensures
        match item_of(s@, item) {
            Some(it) => out matches Some(c) && c@ == copy_of(s@, it, item, views(ids@)),
            None => out is None,
        },
{
    let it = match s.item(item) {
        Some(it) => it,
        None => {
            return None;
        },
    };
    let ghost want = copy_of(s@, it@, item, views(ids@));
    let mut base: Vec<Stored> = Vec::new();
    let mut k: usize = 0;
    while k < ids.len()
        invariant
            k <= ids@.len(),
            base@.len() == k,
            forall|j: int|
                0 <= j < k ==> (#[trigger] base@[j])@ == (StoredModel {
                    id: ids@[j]@,
                    source: param_of(it@.params, ids@[j]@),
                }),
        decreases ids@.len() - k,
    {
        base.push(Stored { id: ids[k].clone(), source: get_param(&it.params, ids[k].as_str()) });
        k = k + 1;
    }
    assert(views(base@) =~= want.base);
    let mut overrides: Vec<Own> = Vec::new();
    let mut v: usize = 0;
    while v < s.variants.len()
        invariant
            v <= s.variants@.len(),
            overrides@.len() == v,
            forall|j: int|
                0 <= j < v ==> (#[trigger] overrides@[j])@ == own_of(
                    s.variants@[j]@,
                    item,
                    views(ids@),
                ),
        decreases s.variants@.len() - v,
    {
        let mut list: Vec<Stored> = Vec::new();
        let mut k: usize = 0;
        while k < ids.len()
            invariant
                v < s.variants@.len(),
                k <= ids@.len(),
                list@.len() == k,
                forall|j: int|
                    0 <= j < k ==> (#[trigger] list@[j])@ == (StoredModel {
                        id: ids@[j]@,
                        source: own_setting(s.variants@[v as int]@, item, ids@[j]@),
                    }),
            decreases ids@.len() - k,
        {
            list.push(
                Stored {
                    id: ids[k].clone(),
                    source: get_own(&s.variants[v], item, ids[k].as_str()),
                },
            );
            k = k + 1;
        }
        let own = Own { variant: s.variants[v].id, list };
        assert(own@ =~= own_of(s.variants@[v as int]@, item, views(ids@)));
        overrides.push(own);
        v = v + 1;
    }
    assert(views(overrides@) =~= want.overrides);
    Some(TransformCopy { base, overrides })
}

// ---- pasting ----

/// The change to one setting, where it's stored otherwise now.
pub open spec fn change(
    seq: SeqId,
    item: ItemId,
    target: ParamTarget,
    id: Seq<char>,
    now: Option<Source>,
    new: Option<Source>,
) -> Seq<OpModel> {
    if now == new {
        Seq::empty()
    } else {
        seq![OpModel::SetParam { seq, item, target, param: id, source: new }]
    }
}

/// The changes to the first `n` of the clip's own settings.
pub open spec fn base_changes(
    seq: SeqId,
    item: ItemId,
    params: Seq<ParamModel>,
    base: Seq<StoredModel>,
    n: int,
) -> Seq<OpModel>
    decreases n,
{
    if n <= 0 {
        Seq::empty()
    } else {
        base_changes(seq, item, params, base, n - 1) + change(
            seq,
            item,
            ParamTarget::Item,
            base[n - 1].id,
            param_of(params, base[n - 1].id),
            base[n - 1].source,
        )
    }
}

pub open spec fn own_with(id: VariantId) -> spec_fn(OwnModel) -> bool {
    |o: OwnModel| o.variant == id
}

pub open spec fn stored_with(id: Seq<char>) -> spec_fn(StoredModel) -> bool {
    |p: StoredModel| p.id == id
}

/// What was copied of a format's own setting (`None` also where nothing was).
pub open spec fn copied_own(overrides: Seq<OwnModel>, variant: VariantId, id: Seq<char>) -> Option<Source> {
    match first_where(overrides, own_with(variant)) {
        None => None,
        Some(i) => match first_where(overrides[i].list, stored_with(id)) {
            None => None,
            Some(j) => overrides[i].list[j].source,
        },
    }
}

/// The changes to the first `n` of one format's own settings for the clip.
pub open spec fn own_changes(seq: SeqId, item: ItemId, v: VariantModel, copy: TransformModel, n: int) -> Seq<
    OpModel,
>
    decreases n,
{
    if n <= 0 {
        Seq::empty()
    } else {
        own_changes(seq, item, v, copy, n - 1) + change(
            seq,
            item,
            ParamTarget::VariantOverride(v.id),
            copy.base[n - 1].id,
            own_setting(v, item, copy.base[n - 1].id),
            copied_own(copy.overrides, v.id, copy.base[n - 1].id),
        )
    }
}

/// The changes to the first `n` formats' own settings for the clip.
pub open spec fn format_changes(s: SequenceModel, item: ItemId, copy: TransformModel, n: int) -> Seq<OpModel>
    decreases n,
{
    if n <= 0 {
        Seq::empty()
    } else {
        format_changes(s, item, copy, n - 1) + own_changes(
            s.id,
            item,
            s.variants[n - 1],
            copy,
            copy.base.len() as int,
        )
    }
}

/// The clip is on a sound track: it has no picture to place.
pub open spec fn is_sound(s: SequenceModel, item: ItemId) -> bool {
    place_of(s, item) matches Some((t, i)) && s.tracks[t].kind == TrackKind::Audio
}

/// The changes that give the clip the copied transform: only what differs.
pub open spec fn paste_one(s: SequenceModel, copy: TransformModel, item: ItemId) -> Seq<OpModel> {
    match item_of(s, item) {
        Some(it) => if is_sound(s, item) {
            Seq::empty()
        } else {
            base_changes(s.id, item, it.params, copy.base, copy.base.len() as int) + format_changes(
                s,
                item,
                copy,
                s.variants.len() as int,
            )
        },
        None => Seq::empty(),
    }
}

/// The changes for the first `n` clips.
pub open spec fn pastes(s: SequenceModel, copy: TransformModel, items: Seq<ItemId>, n: int) -> Seq<OpModel>
    decreases n,
{
    if n <= 0 {
        Seq::empty()
    } else {
        pastes(s, copy, items, n - 1) + paste_one(s, copy, items[n - 1])
    }
}

fn find_copied(copy: &TransformCopy, variant: VariantId, id: &str) -> (out: Option<Source>)
    ensures
        out == copied_own(copy@.overrides, variant, id@),
{
    let ghost all = copy@.overrides;
    let ghost p = own_with(variant);
    let mut i: usize = 0;
    while i < copy.overrides.len()
        invariant
            all == views(copy.overrides@),
            all == copy@.overrides,
            p == own_with(variant),
            i <= copy.overrides@.len(),
            first_where(all, p) == first_from(all, p, i as int),
        decreases copy.overrides@.len() - i,
    {
        assert(all[i as int] == copy.overrides@[i as int]@);
        if copy.overrides[i].variant == variant {
            let list = &copy.overrides[i].list;
            let ghost stored = views(list@);
            let ghost q = stored_with(id@);
            let mut j: usize = 0;
            while j < list.len()
                invariant
                    all == copy@.overrides,
                    p == own_with(variant),
                    first_where(all, p) == Some(i as int),
                    all[i as int].list == stored,
                    stored == views(list@),
                    q == stored_with(id@),
                    j <= list@.len(),
                    first_where(stored, q) == first_from(stored, q, j as int),
                decreases list@.len() - j,
            {
                assert(stored[j as int] == list@[j as int]@);
                if same(list[j].id.as_str(), id) {
                    return list[j].source;
                }
                j = j + 1;
            }
            return None;
        }
        i = i + 1;
    }
    None
}

fn add_change(
    ops: &mut Vec<Op>,
    seq: SeqId,
    item: ItemId,
    target: ParamTarget,
    id: &str,
    now: Option<Source>,
    new: Option<Source>,
)
    ensures
        views(final(ops)@) == views(old(ops)@) + change(seq, item, target, id@, now, new),
{
    let ghost had = ops@;
    if now != new {
        ops.push(Op::SetParam { seq, item, target, param: id.to_owned(), source: new });
    }
    assert(views(ops@) =~= views(had) + change(seq, item, target, id@, now, new));
}

/// The changes that give each of the clips the copied transform.
pub fn paste_transform(s: &Sequence, copy: &TransformCopy, items: &Vec<ItemId>) -> (out: Vec<Op>)
    ensures
        views(out@) == pastes(s@, copy@, items@, items@.len() as int),
{
    let mut ops: Vec<Op> = Vec::new();
    let mut n: usize = 0;
    assert(views(ops@) =~= Seq::<OpModel>::empty());
    while n < items.len()
        invariant
            n <= items@.len(),
            views(ops@) == pastes(s@, copy@, items@, n as int),
        decreases items@.len() - n,
    {
        let item = items[n];
        let ghost before = views(ops@);
        assert(before + Seq::<OpModel>::empty() =~= before);
        if let Some(it) = s.item(item) {
            let sound = match s.find_item(item) {
                Some((t, _)) => {
                    assert(s@.tracks[t as int] == s.tracks@[t as int]@);
                    matches!(s.tracks[t].kind, TrackKind::Audio)
                },
                None => false,
            };
            if !sound {
                let ghost base = copy@.base;
                let mut k: usize = 0;
                assert(before + base_changes(s.id, item, it@.params, base, 0) =~= before);
                while k < copy.base.len()
                    invariant
                        base == views(copy.base@),
                        k <= copy.base@.len(),
                        views(ops@) == before + base_changes(s.id, item, it@.params, base, k as int),
                    decreases copy.base@.len() - k,
                {
                    assert(base[k as int] == copy.base@[k as int]@);
                    let now = get_param(&it.params, copy.base[k].id.as_str());
                    add_change(
                        &mut ops,
                        s.id,
                        item,
                        ParamTarget::Item,
                        copy.base[k].id.as_str(),
                        now,
                        copy.base[k].source,
                    );
                    assert(views(ops@) =~= before + base_changes(
                        s.id,
                        item,
                        it@.params,
                        base,
                        k + 1,
                    ));
                    k = k + 1;
                }
                let ghost own = views(ops@);
                let mut v: usize = 0;
                assert(own + format_changes(s@, item, copy@, 0) =~= own);
                while v < s.variants.len()
                    invariant
                        base == views(copy.base@),
                        base == copy@.base,
                        v <= s.variants@.len(),
                        views(ops@) == own + format_changes(s@, item, copy@, v as int),
                    decreases s.variants@.len() - v,
                {
                    let ghost here = views(ops@);
                    let ghost variant = s@.variants[v as int];
                    assert(variant == s.variants@[v as int]@);
                    let mut k: usize = 0;
                    assert(here + own_changes(s.id, item, variant, copy@, 0) =~= here);
                    while k < copy.base.len()
                        invariant
                            base == views(copy.base@),
                            base == copy@.base,
                            v < s.variants@.len(),
                            variant == s.variants@[v as int]@,
                            k <= copy.base@.len(),
                            views(ops@) == here + own_changes(s.id, item, variant, copy@, k as int),
                        decreases copy.base@.len() - k,
                    {
                        assert(base[k as int] == copy.base@[k as int]@);
                        let id = copy.base[k].id.as_str();
                        let now = get_own(&s.variants[v], item, id);
                        let new = find_copied(copy, s.variants[v].id, id);
                        add_change(
                            &mut ops,
                            s.id,
                            item,
                            ParamTarget::VariantOverride(s.variants[v].id),
                            id,
                            now,
                            new,
                        );
                        assert(views(ops@) =~= here + own_changes(
                            s.id,
                            item,
                            variant,
                            copy@,
                            k + 1,
                        ));
                        k = k + 1;
                    }
                    assert(views(ops@) =~= own + format_changes(s@, item, copy@, v + 1));
                    v = v + 1;
                }
                assert(views(ops@) =~= before + paste_one(s@, copy@, item));
            }
        }
        n = n + 1;
    }
    ops
}

// ---- laws ----

/// The formats have ids of their own.
pub open spec fn formats_differ(s: SequenceModel) -> bool {
    forall|a: int, b: int|
        0 <= a < s.variants.len() && 0 <= b < s.variants.len() && (#[trigger] s.variants[a]).id == (
        #[trigger] s.variants[b]).id ==> a == b
}

/// Pasting a clip's transform back onto the clip changes nothing.
pub proof fn pasting_it_back_changes_nothing(s: SequenceModel, it: ItemModel, item: ItemId, ids: Seq<Seq<char>>)
    requires
        item_of(s, item) == Some(it),
        formats_differ(s),
    ensures
        paste_one(s, copy_of(s, it, item, ids), item) == Seq::<OpModel>::empty(),
{
    let copy = copy_of(s, it, item, ids);
    nothing_of_its_own(s.id, item, it.params, ids, ids.len() as int);
    no_format_changes(s, it, item, ids, s.variants.len() as int);
    if !is_sound(s, item) {
        assert(paste_one(s, copy, item) =~= Seq::<OpModel>::empty());
    }
}

proof fn nothing_of_its_own(seq: SeqId, item: ItemId, params: Seq<ParamModel>, ids: Seq<Seq<char>>, n: int)
    requires
        0 <= n <= ids.len(),
    ensures
        base_changes(seq, item, params, base_of(params, ids), n) == Seq::<OpModel>::empty(),
    decreases n,
{
    if n > 0 {
        nothing_of_its_own(seq, item, params, ids, n - 1);
        assert(base_changes(seq, item, params, base_of(params, ids), n) =~= Seq::<OpModel>::empty());
    }
}

proof fn no_format_changes(s: SequenceModel, it: ItemModel, item: ItemId, ids: Seq<Seq<char>>, n: int)
    requires
        0 <= n <= s.variants.len(),
        formats_differ(s),
    ensures
        format_changes(s, item, copy_of(s, it, item, ids), n) == Seq::<OpModel>::empty(),
    decreases n,
{
    if n > 0 {
        let copy = copy_of(s, it, item, ids);
        no_format_changes(s, it, item, ids, n - 1);
        no_own_changes(s, it, item, ids, n - 1, ids.len() as int);
        assert(format_changes(s, item, copy, n) =~= Seq::<OpModel>::empty());
    }
}

proof fn no_own_changes(s: SequenceModel, it: ItemModel, item: ItemId, ids: Seq<Seq<char>>, v: int, n: int)
    requires
        0 <= v < s.variants.len(),
        0 <= n <= ids.len(),
        formats_differ(s),
    ensures
        own_changes(s.id, item, s.variants[v], copy_of(s, it, item, ids), n) == Seq::<OpModel>::empty(),
    decreases n,
{
    if n > 0 {
        let copy = copy_of(s, it, item, ids);
        no_own_changes(s, it, item, ids, v, n - 1);
        // What was copied for this format is what was copied from it.
        let p = own_with(s.variants[v].id);
        first_is_right(copy.overrides, p, 0);
        assert(copy.overrides[v].variant == s.variants[v].id);
        some_is_first(copy.overrides, p, 0, v);
        let i = first_where(copy.overrides, p)->0;
        assert(copy.overrides[i].variant == s.variants[i].id);
        assert(i == v);
        let q = stored_with(ids[n - 1]);
        let list = copy.overrides[v].list;
        first_is_right(list, q, 0);
        assert(list[n - 1].id == ids[n - 1]);
        some_is_first(list, q, 0, n - 1);
        let j = first_where(list, q)->0;
        assert(list[j].id == ids[n - 1]);
        assert(list[j].source == own_setting(s.variants[v], item, ids[j]));
        assert(own_changes(s.id, item, s.variants[v], copy, n) =~= Seq::<OpModel>::empty());
    }
}

/// What's in two lists together.
proof fn in_either<T>(a: Seq<T>, b: Seq<T>, x: T)
    ensures
        (a + b).contains(x) <==> a.contains(x) || b.contains(x),
{
    if a.contains(x) {
        let k = choose|k: int| 0 <= k < a.len() && a[k] == x;
        assert((a + b)[k] == x);
    }
    if b.contains(x) {
        let k = choose|k: int| 0 <= k < b.len() && b[k] == x;
        assert((a + b)[a.len() + k] == x);
    }
    if (a + b).contains(x) {
        let k = choose|k: int| 0 <= k < (a + b).len() && (a + b)[k] == x;
        if k < a.len() {
            assert(a[k] == x);
        } else {
            assert(b[k - a.len()] == x);
        }
    }
}

/// The change that stores one of a clip's settings, for all formats or for one.
pub open spec fn storing(
    seq: SeqId,
    item: ItemId,
    target: ParamTarget,
    param: Seq<char>,
    source: Option<Source>,
) -> OpModel {
    OpModel::SetParam { seq, item, target, param, source }
}

/// A clip's own setting in a format is that of the format's first entry for the clip.
pub proof fn own_settings_are_the_formats(v: VariantModel, item: ItemId, id: Seq<char>, i: int)
    requires
        0 <= i < v.overrides.len(),
        v.overrides[i].item == item,
        forall|j: int| 0 <= j < i ==> (#[trigger] v.overrides[j]).item != item,
    ensures
        own_setting(v, item, id) == param_of(v.overrides[i].params, id),
{
    let p = override_for(item);
    first_is_right(v.overrides, p, 0);
    some_is_first(v.overrides, p, 0, i);
    let k = first_where(v.overrides, p)->0;
    assert(p(v.overrides[k]));
    if k < i {
        assert(v.overrides[k].item != item);
    }
    assert(k == i);
}

/// A clip that the format has no entry for has no setting of its own there.
pub proof fn no_entry_no_own_setting(v: VariantModel, item: ItemId, id: Seq<char>)
    requires
        forall|j: int| 0 <= j < v.overrides.len() ==> (#[trigger] v.overrides[j]).item != item,
    ensures
        own_setting(v, item, id) is None,
{
    first_is_right(v.overrides, override_for(item), 0);
}

/// What's copied for a format is what the clip has there.
proof fn copied_as_it_is(
    s: SequenceModel,
    it: ItemModel,
    item: ItemId,
    ids: Seq<Seq<char>>,
    v: int,
    n: int,
)
    requires
        0 <= v < s.variants.len(),
        0 <= n < ids.len(),
        formats_differ(s),
    ensures
        copied_own(copy_of(s, it, item, ids).overrides, s.variants[v].id, ids[n]) == own_setting(
            s.variants[v],
            item,
            ids[n],
        ),
{
    let copy = copy_of(s, it, item, ids);
    let p = own_with(s.variants[v].id);
    first_is_right(copy.overrides, p, 0);
    assert(copy.overrides[v].variant == s.variants[v].id);
    some_is_first(copy.overrides, p, 0, v);
    let i = first_where(copy.overrides, p)->0;
    assert(copy.overrides[i].variant == s.variants[i].id);
    assert(i == v);
    let q = stored_with(ids[n]);
    let list = copy.overrides[v].list;
    first_is_right(list, q, 0);
    assert(list[n].id == ids[n]);
    some_is_first(list, q, 0, n);
    let j = first_where(list, q)->0;
    assert(list[j].id == ids[n]);
    assert(list[j].source == own_setting(s.variants[v], item, ids[j]));
}

/// The change gives clip `b` one of `a`'s settings that differ, for all formats or for one.
pub open spec fn gives_setting(
    s: SequenceModel,
    op: OpModel,
    from: ItemModel,
    a: ItemId,
    to: ItemModel,
    b: ItemId,
    ids: Seq<Seq<char>>,
) -> bool {
    exists|k: int, v: int|
        0 <= k < ids.len() && #[trigger] gives_this(s, op, from, a, to, b, ids[k], v)
}

/// The change gives clip `b` the setting `id` as `a` has it: in format `v`, or (`v` is -1) in
/// all of them.
pub open spec fn gives_this(
    s: SequenceModel,
    op: OpModel,
    from: ItemModel,
    a: ItemId,
    to: ItemModel,
    b: ItemId,
    id: Seq<char>,
    v: int,
) -> bool {
    if v == -1 {
        &&& param_of(to.params, id) != param_of(from.params, id)
        &&& op == storing(s.id, b, ParamTarget::Item, id, param_of(from.params, id))
    } else {
        &&& 0 <= v < s.variants.len()
        &&& own_setting(s.variants[v], b, id) != own_setting(s.variants[v], a, id)
        &&& op == storing(
            s.id,
            b,
            ParamTarget::VariantOverride(s.variants[v].id),
            id,
            own_setting(s.variants[v], a, id),
        )
    }
}

proof fn base_is_given(
    s: SequenceModel,
    from: ItemModel,
    a: ItemId,
    to: ItemModel,
    b: ItemId,
    ids: Seq<Seq<char>>,
    n: int,
)
    requires
        0 <= n <= ids.len(),
    ensures
        ({
            let ops = base_changes(s.id, b, to.params, base_of(from.params, ids), n);
            &&& forall|j: int|
                0 <= j < ops.len() ==> gives_setting(s, #[trigger] ops[j], from, a, to, b, ids)
            &&& forall|k: int|
                0 <= k < n && param_of(to.params, #[trigger] ids[k]) != param_of(
                    from.params,
                    ids[k],
                ) ==> ops.contains(
                    storing(s.id, b, ParamTarget::Item, ids[k], param_of(from.params, ids[k])),
                )
        }),
    decreases n,
{
    if n > 0 {
        base_is_given(s, from, a, to, b, ids, n - 1);
        let base = base_of(from.params, ids);
        let before = base_changes(s.id, b, to.params, base, n - 1);
        let ops = base_changes(s.id, b, to.params, base, n);
        let id = ids[n - 1];
        let here = change(
            s.id,
            b,
            ParamTarget::Item,
            id,
            param_of(to.params, id),
            param_of(from.params, id),
        );
        assert(ops == before + here);
        assert forall|j: int| 0 <= j < ops.len() implies gives_setting(
            s,
            #[trigger] ops[j],
            from,
            a,
            to,
            b,
            ids,
        ) by {
            if j < before.len() {
                assert(ops[j] == before[j]);
            } else {
                assert(gives_this(s, ops[j], from, a, to, b, ids[n - 1], -1));
            }
        }
        assert forall|k: int|
            0 <= k < n && param_of(to.params, #[trigger] ids[k]) != param_of(
                from.params,
                ids[k],
            ) implies ops.contains(
            storing(s.id, b, ParamTarget::Item, ids[k], param_of(from.params, ids[k])),
        ) by {
            let x = storing(s.id, b, ParamTarget::Item, ids[k], param_of(from.params, ids[k]));
            in_either(before, here, x);
            if k == n - 1 {
                assert(here[0] == x);
            }
        }
    }
}

proof fn own_is_given(
    s: SequenceModel,
    from: ItemModel,
    a: ItemId,
    to: ItemModel,
    b: ItemId,
    ids: Seq<Seq<char>>,
    v: int,
    n: int,
)
    requires
        0 <= n <= ids.len(),
        0 <= v < s.variants.len(),
        formats_differ(s),
    ensures
        ({
            let w = s.variants[v];
            let ops = own_changes(s.id, b, w, copy_of(s, from, a, ids), n);
            &&& forall|j: int|
                0 <= j < ops.len() ==> gives_setting(s, #[trigger] ops[j], from, a, to, b, ids)
            &&& forall|k: int|
                0 <= k < n && own_setting(w, b, #[trigger] ids[k]) != own_setting(w, a, ids[k])
                    ==> ops.contains(
                    storing(
                        s.id,
                        b,
                        ParamTarget::VariantOverride(w.id),
                        ids[k],
                        own_setting(w, a, ids[k]),
                    ),
                )
        }),
    decreases n,
{
    if n > 0 {
        own_is_given(s, from, a, to, b, ids, v, n - 1);
        copied_as_it_is(s, from, a, ids, v, n - 1);
        let w = s.variants[v];
        let copy = copy_of(s, from, a, ids);
        let before = own_changes(s.id, b, w, copy, n - 1);
        let ops = own_changes(s.id, b, w, copy, n);
        let id = ids[n - 1];
        let here = change(
            s.id,
            b,
            ParamTarget::VariantOverride(w.id),
            id,
            own_setting(w, b, id),
            own_setting(w, a, id),
        );
        assert(ops == before + here);
        assert forall|j: int| 0 <= j < ops.len() implies gives_setting(
            s,
            #[trigger] ops[j],
            from,
            a,
            to,
            b,
            ids,
        ) by {
            if j < before.len() {
                assert(ops[j] == before[j]);
            } else {
                assert(gives_this(s, ops[j], from, a, to, b, ids[n - 1], v));
            }
        }
        assert forall|k: int|
            0 <= k < n && own_setting(w, b, #[trigger] ids[k]) != own_setting(
                w,
                a,
                ids[k],
            ) implies ops.contains(
            storing(
                s.id,
                b,
                ParamTarget::VariantOverride(w.id),
                ids[k],
                own_setting(w, a, ids[k]),
            ),
        ) by {
            let x = storing(
                s.id,
                b,
                ParamTarget::VariantOverride(w.id),
                ids[k],
                own_setting(w, a, ids[k]),
            );
            in_either(before, here, x);
            if k == n - 1 {
                assert(here[0] == x);
            }
        }
    }
}

/// The changes give clip `b` all that `a` has of its own in format `v`.
pub open spec fn own_is_asked(
    s: SequenceModel,
    ops: Seq<OpModel>,
    a: ItemId,
    b: ItemId,
    ids: Seq<Seq<char>>,
    v: int,
) -> bool {
    forall|k: int|
        0 <= k < ids.len() && own_setting(s.variants[v], b, #[trigger] ids[k]) != own_setting(
            s.variants[v],
            a,
            ids[k],
        ) ==> ops.contains(
            storing(
                s.id,
                b,
                ParamTarget::VariantOverride(s.variants[v].id),
                ids[k],
                own_setting(s.variants[v], a, ids[k]),
            ),
        )
}

proof fn formats_are_given(
    s: SequenceModel,
    from: ItemModel,
    a: ItemId,
    to: ItemModel,
    b: ItemId,
    ids: Seq<Seq<char>>,
    n: int,
)
    requires
        0 <= n <= s.variants.len(),
        formats_differ(s),
    ensures
        ({
            let ops = format_changes(s, b, copy_of(s, from, a, ids), n);
            &&& forall|j: int|
                0 <= j < ops.len() ==> gives_setting(s, #[trigger] ops[j], from, a, to, b, ids)
            &&& forall|v: int| 0 <= v < n ==> #[trigger] own_is_asked(s, ops, a, b, ids, v)
        }),
    decreases n,
{
    if n > 0 {
        formats_are_given(s, from, a, to, b, ids, n - 1);
        own_is_given(s, from, a, to, b, ids, n - 1, ids.len() as int);
        let copy = copy_of(s, from, a, ids);
        let before = format_changes(s, b, copy, n - 1);
        let here = own_changes(s.id, b, s.variants[n - 1], copy, ids.len() as int);
        let ops = format_changes(s, b, copy, n);
        assert(copy.base.len() == ids.len());
        assert(ops == before + here);
        assert forall|j: int| 0 <= j < ops.len() implies gives_setting(
            s,
            #[trigger] ops[j],
            from,
            a,
            to,
            b,
            ids,
        ) by {
            if j < before.len() {
                assert(ops[j] == before[j]);
            } else {
                assert(ops[j] == here[j - before.len()]);
            }
        }
        assert forall|v: int| 0 <= v < n implies #[trigger] own_is_asked(
            s,
            ops,
            a,
            b,
            ids,
            v,
        ) by {
            assert forall|k: int|
                0 <= k < ids.len() && own_setting(s.variants[v], b, #[trigger] ids[k])
                    != own_setting(s.variants[v], a, ids[k]) implies ops.contains(
                storing(
                    s.id,
                    b,
                    ParamTarget::VariantOverride(s.variants[v].id),
                    ids[k],
                    own_setting(s.variants[v], a, ids[k]),
                ),
            ) by {
                in_either(
                    before,
                    here,
                    storing(
                        s.id,
                        b,
                        ParamTarget::VariantOverride(s.variants[v].id),
                        ids[k],
                        own_setting(s.variants[v], a, ids[k]),
                    ),
                );
                if v < n - 1 {
                    assert(own_is_asked(s, before, a, b, ids, v));
                }
            }
        }
    }
}

/// Pasting the transform of clip `a` onto clip `b` gives `b` every one of the settings as `a`
/// has it, in all formats and in each one, and asks for nothing that's so already. A clip on a
/// sound track has no picture to place: nothing happens to it.
pub proof fn pasting_carries_the_transform_over(
    s: SequenceModel,
    a: ItemId,
    b: ItemId,
    ids: Seq<Seq<char>>,
)
    requires
        item_of(s, a) is Some,
        item_of(s, b) is Some,
        formats_differ(s),
    ensures
        ({
            let from = item_of(s, a)->0;
            let to = item_of(s, b)->0;
            let ops = paste_one(s, copy_of(s, from, a, ids), b);
            if place_of(s, b) matches Some((t, i)) && s.tracks[t].kind == TrackKind::Audio {
                ops.len() == 0
            } else {
                &&& forall|j: int|
                    0 <= j < ops.len() ==> gives_setting(s, #[trigger] ops[j], from, a, to, b, ids)
                &&& forall|k: int|
                    0 <= k < ids.len() && param_of(to.params, #[trigger] ids[k]) != param_of(
                        from.params,
                        ids[k],
                    ) ==> ops.contains(
                        storing(s.id, b, ParamTarget::Item, ids[k], param_of(from.params, ids[k])),
                    )
                &&& forall|v: int|
                    0 <= v < s.variants.len() ==> #[trigger] own_is_asked(s, ops, a, b, ids, v)
            }
        }),
{
    let from = item_of(s, a)->0;
    let to = item_of(s, b)->0;
    let copy = copy_of(s, from, a, ids);
    let ops = paste_one(s, copy, b);
    if !(place_of(s, b) matches Some((t, i)) && s.tracks[t].kind == TrackKind::Audio) {
        let n = s.variants.len() as int;
        base_is_given(s, from, a, to, b, ids, ids.len() as int);
        formats_are_given(s, from, a, to, b, ids, n);
        let first = base_changes(s.id, b, to.params, copy.base, ids.len() as int);
        let then = format_changes(s, b, copy, n);
        assert(ops == first + then);
        assert forall|j: int| 0 <= j < ops.len() implies gives_setting(
            s,
            #[trigger] ops[j],
            from,
            a,
            to,
            b,
            ids,
        ) by {
            if j < first.len() {
                assert(ops[j] == first[j]);
            } else {
                assert(ops[j] == then[j - first.len()]);
            }
        }
        assert forall|k: int|
            0 <= k < ids.len() && param_of(to.params, #[trigger] ids[k]) != param_of(
                from.params,
                ids[k],
            ) implies ops.contains(
            storing(s.id, b, ParamTarget::Item, ids[k], param_of(from.params, ids[k])),
        ) by {
            in_either(
                first,
                then,
                storing(s.id, b, ParamTarget::Item, ids[k], param_of(from.params, ids[k])),
            );
        }
        assert forall|v: int| 0 <= v < n implies #[trigger] own_is_asked(
            s,
            ops,
            a,
            b,
            ids,
            v,
        ) by {
            assert(own_is_asked(s, then, a, b, ids, v));
            assert forall|k: int|
                0 <= k < ids.len() && own_setting(s.variants[v], b, #[trigger] ids[k])
                    != own_setting(s.variants[v], a, ids[k]) implies ops.contains(
                storing(
                    s.id,
                    b,
                    ParamTarget::VariantOverride(s.variants[v].id),
                    ids[k],
                    own_setting(s.variants[v], a, ids[k]),
                ),
            ) by {
                in_either(
                    first,
                    then,
                    storing(
                        s.id,
                        b,
                        ParamTarget::VariantOverride(s.variants[v].id),
                        ids[k],
                        own_setting(s.variants[v], a, ids[k]),
                    ),
                );
            }
        }
    }
}

/// Pasting on several clips asks for what pasting on each of them does, and for nothing else.
pub proof fn pasting_on_several_is_pasting_on_each(
    s: SequenceModel,
    copy: TransformModel,
    items: Seq<ItemId>,
    n: int,
    op: OpModel,
)
    requires
        0 <= n <= items.len(),
    ensures
        pastes(s, copy, items, n).contains(op) <==> exists|k: int|
            0 <= k < n && paste_one(s, copy, #[trigger] items[k]).contains(op),
    decreases n,
{
    if n > 0 {
        pasting_on_several_is_pasting_on_each(s, copy, items, n - 1, op);
        in_either(pastes(s, copy, items, n - 1), paste_one(s, copy, items[n - 1]), op);
    }
}

} // verus!
