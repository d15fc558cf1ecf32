//! The edit session: what commands ask of the document, with a small document of the test's
//! own that makes the changes.
use openatelier::clip_index::{ClipIndex, Version};
use openatelier::clips::{
    compound_selected, copy_selection, delete_selection, delete_track, divider_color, duplicate_at, extract_audio, group_selection,
    move_track, selection_grouped, toggle_selection_enabled, ungroup_selection, Clipboard, SoundSettings, TrackDeletion,
};
use openatelier::color::InputColor;
use openatelier::doc::{
    get_param, EditError, EffectId, EffectInstance, EffectRole, FormatVariant, Item, ItemId, ItemKind, MediaId, MediaKind, Op, Override,
    Param, ParamTarget, SeqId, Sequence, Source, Time, TimeRange, Track, TrackId, TrackKind, VariantId, SECOND,
};
use openatelier::editor::{Editor, PoolItem, ProjectFile};
use openatelier::effects::{
    add_effect, copy_effects, last_shown_length, paste_effect_settings, paste_effects, put_on_each, reorder, shown, EffectFacts, List,
};
use openatelier::keyframing::Switch;
use openatelier::outcomes::{
    can_paste_settings, contained, container_made, container_texts, copied_notice, drop_on_clip, drop_on_track, effect_name, paste_error,
    place_into_track, ripple_order, scaling_label, set_scaling, Breaking, Broken, Container, Dropped, EffectDrag, MediaScaling, PasteKind, Pasting, SectionCommand,
};
use openatelier::placing::Placed;
use openatelier::project::{split_label, Preset};
use openatelier::selection::{selected_clips, with_groups, Selection};
use openatelier::session::{
    default_tracks, missing_item, open_error, reopen, takes_color_tags, Found, Import, Imported, MediaInfo, MediaRef, OpenError, Reopened,
};
use openatelier::steps::{compounding, enabling, Step};
use openatelier::transform::{copy_transform, paste_transform};

const TINT: &str = "oa.color.tint";

fn secs(s: i64) -> Time {
    Time(s * SECOND)
}

fn source(stored: u64) -> Source {
    Source { stored, keyed: false }
}

fn preset(name: &str, width: u32, height: u32) -> Preset {
    Preset { name: name.to_string(), width, height }
}

fn item(id: u64, kind: ItemKind, start: i64, length: i64) -> Item {
    Item::new(ItemId(id), "clip", kind, TimeRange { start: secs(start), duration: secs(length) })
}

fn effect(id: u64, type_id: &str, role: EffectRole) -> EffectInstance {
    EffectInstance { id: EffectId(id), type_id: type_id.to_string(), enabled: true, role, params: Vec::new() }
}

/// An editor on a document of the test's own: the project's timelines so far, and a count
/// of the changes made.
struct Doc {
    e: Editor,
    past: Vec<Sequence>,
    future: Vec<Sequence>,
    next: u64,
    revision: u64,
}

impl Doc {
    fn new() -> Doc {
        let ids: Vec<u64> = (1..=6).collect();
        let background = item(u64::MAX, ItemKind::Solid, 0, 0);
        let e = Editor::new(
            &ids,
            background,
            &preset("Landscape 16:9", 1920, 1080),
            &preset("Vertical 9:16", 1080, 1920),
            &preset("Square 1:1", 1080, 1080),
            0,
        );
        Doc { e, past: Vec::new(), future: Vec::new(), next: 7, revision: 0 }
    }

    fn fresh_id(&mut self) -> u64 {
        self.next += 1;
        self.next
    }

    fn edit(&mut self, ops: Vec<Op>) {
        self.past.push(self.e.timeline.copy());
        self.future.clear();
        self.revision += 1;
        self.e.snapshot += 1;
        for op in ops {
            self.make(op);
        }
    }

    fn undo(&mut self) {
        let was = self.past.pop().expect("something to undo");
        self.future.push(self.e.timeline.copy());
        self.e.timeline = was;
        self.revision += 1;
    }

    fn redo(&mut self) {
        let was = self.future.pop().expect("something to redo");
        self.past.push(self.e.timeline.copy());
        self.e.timeline = was;
        self.revision += 1;
    }

    fn clip(&mut self, id: ItemId) -> &mut Item {
        let (t, i) = self.e.timeline.find_item(id).expect("the clip is there");
        &mut self.e.timeline.tracks[t].items[i]
    }

    fn make(&mut self, op: Op) {
        match op {
            Op::InsertTrack { index, track, .. } => self.e.timeline.tracks.insert(index, track),
            Op::RemoveTrack { track, .. } => self.e.timeline.tracks.retain(|t| t.id != track),
            Op::InsertItem { track, item, .. } => {
                let t = self.e.timeline.track_index(track).expect("the track is there");
                let items = &mut self.e.timeline.tracks[t].items;
                let at = items.iter().position(|i| i.range.start.0 > item.range.start.0).unwrap_or(items.len());
                items.insert(at, item);
            }
            Op::RemoveItem { item, .. } => {
                let (t, i) = self.e.timeline.find_item(item).expect("the clip is there");
                self.e.timeline.tracks[t].items.remove(i);
            }
            Op::InsertEffect { item, index, effect, .. } => self.clip(item).effects.insert(index, effect),
            Op::RemoveEffect { item, effect, .. } => self.clip(item).effects.retain(|e| e.id != effect),
            Op::SetEffectEnabled { item, effect, enabled, .. } => {
                for e in self.clip(item).effects.iter_mut().filter(|e| e.id == effect) {
                    e.enabled = enabled;
                }
            }
            Op::SetReverseIntro { item, on, .. } => self.clip(item).outro_reverses_intro = on,
            Op::SetItemGroup { item, group, .. } => self.clip(item).group = group,
            Op::SetItemTiming { item, range, time_map, .. } => {
                let it = self.clip(item);
                it.range = range;
                it.time_map = time_map;
            }
            Op::SetParam { item, target: ParamTarget::Item, param, source, .. } => {
                let params = &mut self.clip(item).params;
                params.retain(|p| p.id != param);
                if let Some(source) = source {
                    params.push(Param { id: param, source });
                }
            }
            _ => panic!("not a change these tests make"),
        }
    }

    fn place(&mut self, p: Placed) -> ItemId {
        let mut ops: Vec<Op> = p.new_track.into_iter().collect();
        ops.push(p.insert);
        self.edit(ops);
        p.clip
    }

    fn add_text(&mut self, at: Time, text: u64, length: Time) -> ItemId {
        let (track, id) = (TrackId(self.fresh_id()), ItemId(self.fresh_id()));
        let p = self.e.add_text(at, "text.content", source(text), length, track, id);
        self.place(p)
    }

    /// What cutting a clip at `t` takes: nothing, too close to an edge.
    fn cut(&mut self, id: ItemId, t: Time) -> Result<(Vec<Op>, ItemId), EditError> {
        let back = ItemId(self.fresh_id());
        let (track, _) = self.e.timeline.find_item(id).ok_or(EditError::NoSuchItem(id))?;
        let track = self.e.timeline.tracks[track].id;
        let it = self.e.timeline.item(id).expect("found");
        if !(it.range.start.0 < t.0 && t.0 < it.range.end().0) {
            return Err(EditError::InvalidRange);
        }
        let mut rest = it.copy();
        rest.id = back;
        rest.range = TimeRange { start: t, duration: Time(it.range.end().0 - t.0) };
        let range = TimeRange { start: it.range.start, duration: Time(t.0 - it.range.start.0) };
        let seq = self.e.timeline.id;
        Ok((
            vec![Op::SetItemTiming { seq, item: id, range, time_map: it.time_map }, Op::InsertItem { seq, track, item: rest }],
            back,
        ))
    }

    fn split_many(&mut self, items: &[ItemId], t: Time) -> Result<Vec<ItemId>, EditError> {
        let results = items.iter().map(|&i| self.cut(i, t)).collect();
        let (ops, backs) = Editor::split_many(results)?;
        self.edit(ops);
        Ok(backs)
    }

    fn version(&self) -> Version {
        Version { revision: self.revision, snapshot: self.e.snapshot, seq: self.e.timeline.id }
    }

    fn find(&self, index: &mut ClipIndex, id: ItemId) -> Option<ItemId> {
        index.find(&self.e.timeline, self.version(), id).map(|i| i.id)
    }
}

/// The clip index follows every change: clips added, moved along their track by an edit
/// before them, removed, and brought back by undo.
#[test]
fn the_clip_index_is_never_stale() {
    let mut e = Doc::new();
    let mut index = ClipIndex::new();
    let a = e.add_text(secs(10), 1, secs(2));
    assert_eq!(e.find(&mut index, a), Some(a));
    // A clip before it: A moves one place along the track.
    let b = e.add_text(secs(0), 2, secs(2));
    assert_eq!(e.find(&mut index, a), Some(a));
    assert_eq!(e.find(&mut index, b), Some(b));
    e.edit(vec![Op::RemoveItem { seq: e.e.timeline.id, item: b }]);
    assert!(e.find(&mut index, b).is_none(), "gone");
    assert_eq!(e.find(&mut index, a), Some(a), "and the one after it found in its new place");
    e.undo();
    assert_eq!(e.find(&mut index, b), Some(b), "back after undo");
    e.redo();
    assert!(e.find(&mut index, b).is_none(), "and gone again after redo");
}

/// With several clips selected, what's done to one clip's effect happens to the same effect
/// on the others (matched by type and order), and "Reverse" reaches each; a split cuts every
/// selected clip under the playhead.
#[test]
fn selections_act_as_one() {
    let mut e = Doc::new();
    let a = e.add_text(secs(0), 1, secs(4));
    let b = e.add_text(secs(5), 2, secs(4));
    let seq = e.e.timeline.id;
    e.edit(vec![
        Op::InsertEffect { seq, item: a, index: 0, effect: effect(100, TINT, EffectRole::Passive) },
        Op::InsertEffect { seq, item: b, index: 0, effect: effect(200, TINT, EffectRole::Passive) },
    ]);
    e.e.linked = vec![a, b];
    assert_eq!(e.e.effect_peers(a, EffectId(100)), vec![(b, EffectId(200))]);
    let ops = e.e.fanned(vec![
        Op::SetEffectEnabled { seq, item: a, effect: EffectId(100), enabled: false },
        Op::SetReverseIntro { seq, item: a, on: true },
    ]);
    e.edit(ops);
    for id in [a, b] {
        let it = e.e.timeline.item(id).unwrap();
        assert!(!it.effects[0].enabled && it.outro_reverses_intro, "{id:?}");
    }
    let ops = e.e.fanned(vec![Op::RemoveEffect { seq, item: a, effect: EffectId(100) }]);
    e.edit(ops);
    assert!(e.e.timeline.item(a).unwrap().effects.is_empty() && e.e.timeline.item(b).unwrap().effects.is_empty());
    e.e.linked.clear();

    // Split: both clips, where the playhead crosses them; a clip it doesn't cross is
    // skipped, not an error.
    let c = e.add_text(secs(20), 3, secs(2));
    let backs = e.split_many(&[a, c], secs(2)).unwrap();
    assert_eq!(backs.len(), 1);
    let backs = e.split_many(&[b, c], secs(7)).unwrap();
    assert_eq!(backs.len(), 1);
    assert_eq!(e.e.timeline.item(b).unwrap().range.duration, secs(2));
    assert_eq!(e.split_many(&[c], secs(7)), Err(EditError::InvalidRange));
    assert_eq!((split_label(None), split_label(Some(1)), split_label(Some(2))), ("Split", "Split clip", "Split clips"));
}

/// With clips linked (a multiple selection in the inspector), a value set on one is set on
/// each, the way each is stored; switching keyframing on turns it on for all of them.
#[test]
fn linked_clips_follow_parameter_edits() {
    let mut e = Doc::new();
    let a = e.add_text(secs(0), 1, secs(2));
    let b = e.add_text(secs(3), 2, secs(2));
    e.e.linked = vec![a, b];
    let seq = e.e.timeline.id;
    let changes = e.e.toggle_keyframing(a, ParamTarget::Item, "opacity").unwrap();
    let ops = changes
        .iter()
        .map(|c| {
            assert_eq!(c.switch, Switch::StartFromDefault);
            Op::SetParam { seq, item: c.item, target: c.target, param: "opacity".to_string(), source: Some(Source { stored: 1, keyed: true }) }
        })
        .collect();
    e.edit(ops);
    assert!(e.e.param_source(b, ParamTarget::Item, "opacity").is_some_and(|s| s.keyed), "keyframing went on for both");
    let settings = e.e.settings(a, ParamTarget::Item, "text.size");
    let written: Vec<Source> = settings.iter().map(|_| source(123)).collect();
    let ops = e.e.set_value_at(&settings, "text.size", source(123), &written);
    e.edit(ops);
    for id in [a, b] {
        assert_eq!(e.e.param_source(id, ParamTarget::Item, "text.size"), Some(source(123)));
    }
    // Unlinked: only the one.
    e.e.linked.clear();
    let settings = e.e.settings(a, ParamTarget::Item, "text.size");
    let written: Vec<Source> = settings.iter().map(|_| source(50)).collect();
    let ops = e.e.set_value_at(&settings, "text.size", source(50), &written);
    e.edit(ops);
    assert_eq!(e.e.param_source(a, ParamTarget::Item, "text.size"), Some(source(50)));
    assert_eq!(e.e.param_source(b, ParamTarget::Item, "text.size"), Some(source(123)));
}

#[test]
fn turning_keyframing_off_keeps_the_value() {
    let mut e = Doc::new();
    let a = e.add_text(secs(0), 1, secs(2));
    let keyed = Source { stored: 4, keyed: true };
    e.edit(vec![Op::SetParam { seq: SeqId(1), item: a, target: ParamTarget::Item, param: "opacity".to_string(), source: Some(keyed) }]);
    let changes = e.e.toggle_keyframing(a, ParamTarget::Item, "opacity").unwrap();
    assert_eq!(changes.len(), 1);
    assert_eq!(changes[0].switch, Switch::Stop(keyed));
    assert!(matches!(e.e.toggle_keyframing(ItemId(999), ParamTarget::Item, "opacity"), Err(EditError::NoSuchItem(ItemId(999)))));
    let ops = e.e.set_param(a, ParamTarget::Item, "opacity", source(1));
    assert_eq!(ops.len(), 1);
}

#[test]
fn a_fresh_project_is_clean() {
    let mut e = Doc::new();
    assert!(!e.e.dirty());
    assert_eq!(e.e.title(), "Untitled");
    assert_eq!((e.e.timeline.name.as_str(), e.e.timeline.tracks.len(), e.e.timeline.variants.len()), ("Main", 2, 3));
    e.add_text(secs(0), 1, secs(1));
    assert!(e.e.dirty());
    assert_eq!(e.e.title(), "Untitled •");
    let file = ProjectFile { path: "/p/one.oaproj.json".to_string(), name: "one.oaproj.json".to_string() };
    let now = e.e.snapshot;
    e.e.mark_saved(file, now);
    assert!(!e.e.dirty());
    assert_eq!(e.e.title(), "one.oaproj.json");
    e.e.mark_recovered(None);
    assert!(e.e.dirty());
    let (at, variant) = e.e.add_variant(&preset("4:5", 1080, 1350), VariantId(50));
    assert_eq!((at, variant.name.as_str(), variant.height), (3, "4:5", 1350));
    assert!(matches!(Editor::remove_compound(SeqId(9)), Op::RemoveSequence { seq: SeqId(9) }));
    assert!(matches!(e.e.rename_track(TrackId(2), "Top".to_string()), Op::SetTrackName { name, .. } if name == "Top"));
}

fn pool(id: u64, kind: MediaKind) -> PoolItem {
    PoolItem {
        id: MediaId(id),
        name: format!("file {id}"),
        kind,
        decode_path: format!("/f/{id}"),
        conformed: None,
        duration: secs(3),
        has_video: kind != MediaKind::Audio,
        has_audio: kind != MediaKind::Still,
        about: "a file".to_string(),
        missing: false,
    }
}

#[test]
fn clips_append_one_after_another() {
    let mut d = Doc::new();
    d.e.pool.push(pool(40, MediaKind::Still));
    d.e.pool.push(pool(41, MediaKind::Audio));
    let p = d.e.append_clip(MediaId(40), secs(2), TrackId(90), ItemId(91)).ok().unwrap();
    let first = d.place(p);
    let p = d.e.append_clip(MediaId(40), secs(3), TrackId(90), ItemId(92)).ok().unwrap();
    let second = d.place(p);
    assert_eq!(d.e.timeline.item(first).unwrap().range.start, secs(0));
    assert_eq!(d.e.timeline.item(second).unwrap().range.start, secs(2));
    let p = d.e.append_clip(MediaId(41), secs(3), TrackId(90), ItemId(93)).ok().unwrap();
    let sound = d.place(p);
    assert_eq!(d.e.timeline.find_item(sound), Some((1, 0)), "on the audio track");
    assert!(matches!(d.e.append_clip(MediaId(9), secs(1), TrackId(90), ItemId(94)), Err(EditError::NoSuchMedia(MediaId(9)))));
    assert_eq!(d.e.pool_item(MediaId(41)).map(|p| p.kind), Some(MediaKind::Audio));
    let gone = PoolItem { missing: true, ..pool(1, MediaKind::Video) };
    assert_eq!(gone.summary(), "missing — the file moved or was deleted");
    let p = d.e.append_compound(SeqId(60), Some(("Compound 1".to_string(), secs(0))), TrackId(95), ItemId(96)).ok().unwrap();
    let nested = d.place(p);
    assert_eq!(d.e.timeline.item(nested).unwrap().range.duration, secs(1), "at least a second");
    assert!(d.e.append_compound(SeqId(61), None, TrackId(95), ItemId(97)).is_err());
}

#[test]
fn clips_are_placed_where_there_is_room() {
    let mut d = Doc::new();
    let p = d.e.place_clip("a", ItemKind::Solid, secs(4), secs(0), None, TrackId(90), ItemId(91));
    d.place(p);
    let p = d.e.place_clip("b", ItemKind::Solid, secs(4), secs(2), Some(TrackId(2)), TrackId(92), ItemId(93));
    assert!(p.new_track.is_some(), "the only video track is taken there");
    d.place(p);
    assert_eq!(d.e.timeline.tracks.len(), 3);
    assert_eq!(d.e.timeline.tracks[1].name, "V2");
    assert_eq!(d.e.compounds(&vec![SeqId(1), SeqId(5), SeqId(6)], &vec![SeqId(1), SeqId(6)]), vec![SeqId(5)]);
}

#[test]
fn containers_stop_at_the_next_one() {
    let mut d = Doc::new();
    let op = d.e.add_effect_track(TrackKind::Video, TrackId(2), TrackId(80)).ok().unwrap();
    d.edit(vec![op]);
    let op = d.e.add_container(TrackId(80), secs(3), ItemId(81)).ok().unwrap();
    d.edit(vec![op]);
    let op = d.e.add_container(TrackId(80), secs(1), ItemId(82)).ok().unwrap();
    d.edit(vec![op]);
    assert_eq!(d.e.timeline.item(ItemId(81)).unwrap().range.duration, secs(5));
    assert_eq!(d.e.timeline.item(ItemId(82)).unwrap().range.duration, secs(2));
    assert!(matches!(d.e.add_container(TrackId(80), secs(2), ItemId(83)), Err(EditError::Overlap)));
    assert!(matches!(d.e.add_container(TrackId(2), secs(2), ItemId(83)), Err(EditError::WrongTrackKind)));
    assert!(matches!(d.e.add_effect_track(TrackKind::Video, TrackId(7), TrackId(8)), Err(EditError::NoSuchTrack(TrackId(7)))));
    assert_eq!(d.e.container_kind(ItemId(81)), Some(TrackKind::Video));
}

#[test]
fn nesting_puts_one_clip_in_their_place() {
    let mut d = Doc::new();
    let a = d.add_text(secs(2), 1, secs(2));
    let b = d.add_text(secs(5), 2, secs(2));
    let fresh: Vec<u64> = (100..130).collect();
    let background = item(u64::MAX, ItemKind::Solid, 0, 0);
    let made = d.e.compound(&vec![a, b], true, 1, background, &fresh).ok().unwrap();
    assert_eq!(made.seq, SeqId(100));
    let clip = made.clip.expect("nesting places a clip");
    let mut inner = None;
    let mut placed = None;
    for op in &made.ops {
        match op {
            Op::AddSequence { sequence } => inner = Some(sequence.copy()),
            Op::InsertItem { item, .. } => placed = Some(item.copy()),
            _ => {}
        }
    }
    let inner = inner.expect("a timeline is added");
    assert_eq!(inner.name, "Compound 1");
    let starts: Vec<Time> = inner.tracks.iter().flat_map(|t| t.items.iter().map(|i| i.range.start)).collect();
    assert!(starts.contains(&secs(0)) && starts.contains(&secs(3)), "moved to start at 0, keeping the spacing");
    let placed = placed.unwrap();
    assert_eq!((placed.id, placed.range), (clip, TimeRange { start: secs(2), duration: secs(5) }));
    let background = item(u64::MAX, ItemKind::Solid, 0, 0);
    assert!(matches!(d.e.compound(&Vec::new(), false, 1, background, &fresh), Err(EditError::NoClips)));
}

#[test]
fn groups_are_selected_together() {
    let mut d = Doc::new();
    let a = d.add_text(secs(0), 1, secs(2));
    let b = d.add_text(secs(3), 2, secs(2));
    let c = d.add_text(secs(6), 3, secs(2));
    let seq = d.e.timeline.id;
    d.edit(group_selection(seq, &vec![a, c], 77));
    let s = &d.e.timeline;
    assert_eq!(with_groups(s, &vec![a]).len(), 2);
    let mut sel = Selection { primary: None, members: Vec::new() };
    sel.select_clip(s, a, false);
    assert_eq!((sel.primary, sel.members.len()), (Some(a), 2));
    sel.select_clip(s, b, true);
    assert_eq!(sel.members.len(), 3);
    sel.select_clip(s, b, true);
    assert_eq!(sel.members.len(), 2, "clicked again, it leaves");
    assert_eq!(selected_clips(s, &sel.members), vec![a, c]);
    assert!(selection_grouped(s, &sel.members) && !compound_selected(s, &sel.members));
    sel.select_all(s);
    assert_eq!(sel.members.len(), 3);
    assert_eq!(group_selection(seq, &vec![a], 1).len(), 0, "one clip is no group");
    assert_eq!(ungroup_selection(s, &vec![a, b, c]).len(), 2);
    sel.select_section(s, &vec![b, a]);
    assert_eq!((sel.primary, sel.members.len()), (Some(a), 3), "with the clips grouped with them");
    d.edit(delete_selection(seq, &vec![a]));
    sel.primary = Some(a);
    sel.sync_selection(&d.e.timeline);
    assert!(!sel.members.contains(&a) && sel.primary.is_some());
    let once = (sel.primary, sel.members.clone());
    sel.sync_selection(&d.e.timeline);
    assert_eq!((sel.primary, sel.members.clone()), once);
    sel.clear();
    assert!(sel.members.is_empty() && sel.primary.is_none());
}

#[test]
fn clips_are_copied_switched_and_moved() {
    let mut d = Doc::new();
    let a = d.add_text(secs(0), 1, secs(2));
    let b = d.add_text(secs(3), 2, secs(2));
    let copied = copy_selection(&d.e.timeline, &vec![a, ItemId(999)]);
    assert_eq!(copied.len(), 1);
    let mut board = Clipboard { clips: copied };
    let twice = board.duplicate_selection(&d.e.timeline, &vec![a, b]).expect("they're there");
    assert_eq!((twice.clips.len(), twice.at), (2, secs(5)), "both, right after them");
    assert_eq!(board.clips.iter().map(|c| c.item.id).collect::<Vec<ItemId>>(), vec![a], "what was copied still is");
    assert!(board.duplicate_selection(&d.e.timeline, &vec![ItemId(999)]).is_none());
    board.copy_selection(&d.e.timeline, &Vec::new());
    assert_eq!(board.clips.len(), 1);
    board.copy_selection(&d.e.timeline, &vec![b]);
    assert_eq!(board.clips[0].item.id, b);
    let (ops, on) = toggle_selection_enabled(&d.e.timeline, &vec![a, b]);
    assert_eq!((ops.len(), on), (2, false));
    assert_eq!(duplicate_at(&d.e.timeline, &vec![a, b]), Some(secs(5)));
    assert_eq!(duplicate_at(&d.e.timeline, &Vec::new()), None);
    assert!(matches!(delete_track(&d.e.timeline, TrackId(3)), TrackDeletion::LastOfItsKind));
    assert!(matches!(delete_track(&d.e.timeline, TrackId(999)), TrackDeletion::Nothing));
    let op = d.e.add_track(TrackKind::Audio, TrackId(70));
    d.edit(vec![op]);
    let last = d.e.timeline.tracks.len() - 1;
    assert_eq!(d.e.timeline.tracks[last].name, "A2");
    assert_eq!(move_track(&d.e.timeline, TrackId(70), true).len(), 2);
    assert_eq!(move_track(&d.e.timeline, TrackId(70), false).len(), 0, "it's the last");
    d.edit(move_track(&d.e.timeline, TrackId(70), true));
    assert_eq!(d.e.timeline.tracks[last - 1].id, TrackId(70));
    d.edit(move_track(&d.e.timeline, TrackId(70), false));
    assert_eq!(d.e.timeline.tracks[last].id, TrackId(70), "back where it was");
    assert_eq!(divider_color(7, 6), 1);
}

#[test]
fn sounds_move_onto_audio_tracks() {
    let mut d = Doc::new();
    d.e.pool.push(pool(40, MediaKind::Video));
    let p = d.e.append_clip(MediaId(40), secs(2), TrackId(90), ItemId(91)).ok().unwrap();
    let clip = d.place(p);
    assert_eq!(d.e.extractable(&vec![clip]), vec![clip]);
    let settings = SoundSettings {
        enabled: "audio.enabled".to_string(),
        gain: "audio.gain".to_string(),
        keep_pitch: "audio.keep_pitch".to_string(),
        off: source(0),
    };
    let fresh: Vec<u64> = (200..210).collect();
    let ops = extract_audio(&d.e.timeline, &vec![clip], &settings, &Vec::new(), &fresh);
    let mut sound = None;
    for op in ops {
        if let Op::InsertItem { track, item, .. } = op {
            assert_eq!(track, TrackId(3), "the audio track is free there");
            sound = Some(item);
        }
    }
    let sound = sound.expect("a sound clip");
    assert_eq!(sound.name, "file 40 (audio)");
    assert!(sound.group.is_some());
}

#[test]
fn effects_go_where_they_fit() {
    let mut d = Doc::new();
    let a = d.add_text(secs(0), 1, secs(2));
    d.e.pool.push(pool(41, MediaKind::Audio));
    let p = d.e.append_clip(MediaId(41), secs(2), TrackId(90), ItemId(91)).ok().unwrap();
    let sound = d.place(p);
    let picture = EffectFacts { known: true, sound: false, text_only: false, motion: false, fades_only: false, in_out: false };
    let heard = EffectFacts { sound: true, ..picture };
    assert!(d.e.effect_fits(a, picture) && !d.e.effect_fits(a, heard));
    assert!(!d.e.effect_fits(sound, picture) && d.e.effect_fits(sound, heard));
    assert!(d.e.is_visual(a) && !d.e.is_audible(a) && d.e.is_audible(sound));
    assert_eq!(d.e.fitting(&vec![a, sound], picture), vec![a]);
    let fx = effect(1, TINT, EffectRole::Passive);
    let (ops, n) = d.e.apply_effect_to(&fx, picture, &vec![a, sound], &vec![301, 302]);
    assert_eq!((ops.len(), n), (1, 1));
    d.edit(ops);
    let (ops, n) = put_on_each(&d.e.timeline, &fx, &vec![a], &vec![303]);
    assert_eq!((ops.len(), n), (0, 0), "it has it like this already");
    let louder = EffectInstance { params: vec![Param { id: "x".to_string(), source: source(3) }], ..effect(1, TINT, EffectRole::Passive) };
    let (ops, n) = put_on_each(&d.e.timeline, &louder, &vec![a], &vec![304]);
    assert_eq!((ops.len(), n), (2, 1), "its settings are replaced");
    d.edit(ops);
    assert_eq!(put_on_each(&d.e.timeline, &louder, &vec![a], &vec![305]).1, 0, "once is enough");
}

#[test]
fn effects_are_added_copied_and_reordered() {
    let mut d = Doc::new();
    let a = d.add_text(secs(0), 1, secs(2));
    d.edit(add_effect(&d.e.timeline, &vec![a], List::Effects, TINT, None, false, &vec![400]));
    d.edit(add_effect(&d.e.timeline, &vec![a], List::Intro, "oa.fade", None, false, &vec![401]));
    let it = d.e.timeline.item(a).unwrap();
    assert_eq!(it.effects[0].type_id, "oa.fade", "intros go before the passive ones");
    assert_eq!(it.effects[0].role, EffectRole::In { duration: Time(SECOND / 2) });
    assert_eq!(last_shown_length(it, List::Intro, &Vec::new()), Some(Time(SECOND / 2)));
    assert_eq!(last_shown_length(it, List::Effects, &Vec::new()), None);
    assert_eq!(last_shown_length(it, List::Outro, &Vec::new()), None);
    let fade = EffectFacts { known: true, sound: false, text_only: false, motion: true, fades_only: true, in_out: true };
    let (more, n) = d.e.add_from_list(a, List::Intro, "oa.zoom", fade, &vec![a], &Vec::new(), &vec![450]);
    assert_eq!(n, 1);
    assert!(matches!(&more[0], Op::InsertEffect { index: 1, effect, .. } if effect.role == EffectRole::In { duration: Time(SECOND / 2) }));
    assert_eq!(d.e.add_from_list(ItemId(999), List::Intro, "oa.zoom", fade, &vec![a], &Vec::new(), &vec![450]).1, 0);
    assert_eq!(shown(&it.effects, List::Effects, &Vec::new()), vec![1]);
    let all = copy_effects(it, None);
    assert_eq!((all.effects.len(), all.reverse), (2, Some(false)));
    let one = copy_effects(it, Some(EffectId(400)));
    assert_eq!((one.effects.len(), one.reverse), (1, None));
    assert!(can_paste_settings(&one.effects, TINT) && !can_paste_settings(&one.effects, "oa.fade"));
    assert_eq!(paste_effect_settings(&d.e.timeline, &one, a, EffectId(400)).len(), 2);
    assert_eq!(paste_effects(&d.e.timeline, &one, &vec![a], &vec![500]).len(), 1);
    let b = d.add_text(secs(3), 2, secs(2));
    d.e.linked = vec![a, b];
    d.edit(add_effect(&d.e.timeline, &vec![b], List::Effects, "oa.blur", None, false, &vec![402]));
    assert_eq!(d.e.cards(a, List::Effects, &Vec::new()), vec![(a, EffectId(400)), (b, EffectId(402))]);
    assert_eq!(reorder(&d.e.timeline, a, 0, 1).len(), 2);
}

#[test]
fn a_transform_is_pasted_once() {
    let mut d = Doc::new();
    let a = d.add_text(secs(0), 1, secs(2));
    let b = d.add_text(secs(3), 2, secs(2));
    d.clip(a).params.push(Param { id: "position".to_string(), source: source(5) });
    d.e.timeline.variants[1].overrides.push(Override { item: a, params: vec![Param { id: "scale".to_string(), source: source(6) }] });
    let ids = vec!["position".to_string(), "scale".to_string()];
    let copy = copy_transform(&d.e.timeline, a, &ids).expect("the clip is there");
    assert!(paste_transform(&d.e.timeline, &copy, &vec![a]).is_empty(), "it has it already");
    let ops = paste_transform(&d.e.timeline, &copy, &vec![b, ItemId(999)]);
    assert_eq!(ops.len(), 2);
    assert!(matches!(&ops[0], Op::SetParam { target: ParamTarget::Item, source: Some(s), .. } if s.stored == 5));
    assert!(matches!(&ops[1], Op::SetParam { target: ParamTarget::VariantOverride(VariantId(5)), source: Some(s), .. } if s.stored == 6));
    assert!(copy_transform(&d.e.timeline, ItemId(999), &ids).is_none());
    let v: &FormatVariant = &d.e.timeline.variants[1];
    assert_eq!(get_param(&v.overrides[0].params, "scale"), Some(source(6)));
}

#[test]
fn pasting_says_what_came_of_it() {
    let op = || Op::RemoveItem { seq: SeqId(1), item: ItemId(2) };
    assert!(matches!(place_into_track(false, PasteKind::Paste, Ok((vec![op()], Vec::new()))), Pasting::Nothing));
    assert!(matches!(place_into_track(true, PasteKind::Paste, Ok((Vec::new(), Vec::new()))), Pasting::Refused(t) if t.starts_with("nothing to put there")));
    assert!(matches!(place_into_track(true, PasteKind::Duplicate, Err("no room".to_string())), Pasting::Refused(t) if t == "can't duplicate: no room"));
    assert!(matches!(place_into_track(true, PasteKind::Paste, Ok((vec![op()], vec![ItemId(2)]))), Pasting::Do { ids, .. } if ids == vec![ItemId(2)]));
    assert_eq!(paste_error(PasteKind::Paste, "x"), "can't paste: x");
    let mut sel = Selection { primary: None, members: Vec::new() };
    assert_eq!(sel.pasted(PasteKind::Paste, &vec![ItemId(3), ItemId(2)], Ok(())), None);
    assert_eq!(sel.primary, Some(ItemId(2)));
    assert_eq!(sel.pasted(PasteKind::Paste, &vec![ItemId(9)], Err("x".to_string())), Some("can't paste: x".to_string()));
    assert_eq!(sel.primary, Some(ItemId(2)));
    assert_eq!(ripple_order(&vec![ItemId(1), ItemId(2), ItemId(3)]), vec![ItemId(3), ItemId(2), ItemId(1)]);
}

#[test]
fn compound_clips_break_apart() {
    let mut b = Breaking::new();
    b.step(Broken::Apart { clips: vec![ItemId(1), ItemId(2)], dropped: true, applied: Ok(()) });
    b.step(Broken::Retimed);
    b.step(Broken::Apart { clips: vec![ItemId(3)], dropped: false, applied: Err("overlap".to_string()) });
    b.step(Broken::Failed("gone".to_string()));
    assert_eq!(b.placed, vec![ItemId(1), ItemId(2)]);
    assert_eq!(b.error.as_deref(), Some("can't break it apart: gone"));
    let (lost, retimed) = b.notices();
    assert!(lost.is_some() && retimed.is_some());
    let mut sel = Selection { primary: None, members: Vec::new() };
    sel.select_pieces(&b.placed);
    assert_eq!((sel.primary, sel.members.len()), (Some(ItemId(1)), 2));
    sel.select_pieces(&Vec::new());
    assert_eq!(sel.members.len(), 2);
    assert_eq!(SectionCommand::Clear { section: 1 }.label(), Some("Clear section"));
    assert_eq!(SectionCommand::Edit { divider: 1 }.error("no"), Some("Edit divider: no".to_string()));
    assert_eq!(SectionCommand::Select { section: 1 }.error("no"), None);
}

#[test]
fn commands_are_undo_steps() {
    let ops = || delete_selection(SeqId(1), &vec![ItemId(5)]);
    assert!(Editor::apply("Delete", Vec::new()).is_none());
    let e = Editor::apply("Delete", ops()).unwrap();
    assert!(e.label == "Delete" && e.key.is_none() && e.ops.len() == 1);
    assert!(Editor::apply_drag("Move", "move", Vec::new()).is_none());
    let e = Editor::apply_drag("Move", "move", ops()).unwrap();
    assert!(e.label == "Move" && e.key.as_deref() == Some("move") && e.ops.len() == 1);
}

#[test]
fn dropped_effects_say_where_they_went() {
    assert_eq!(effect_name("oa.blur", None), "oa.blur");
    assert_eq!(effect_name("oa.blur", Some("Blur")), "Blur");
    assert!(matches!(drop_on_track("Echo", true, Some(TrackKind::Audio)), Dropped::Copy));
    assert!(matches!(drop_on_track("Echo", true, None), Dropped::Nothing));
    assert!(matches!(drop_on_track("Echo", true, Some(TrackKind::Video)), Dropped::Refused(t) if t == "Echo is a sound effect: drop it on a sound effect track."));
    let drag = EffectDrag { from: ItemId(1), effect: effect(1, TINT, EffectRole::In { duration: secs(1) }) };
    assert!(matches!(drop_on_clip(&drag, ItemId(1), "Echo", "B", true, true), Dropped::Nothing));
    assert!(matches!(drop_on_clip(&drag, ItemId(2), "Echo", "B", true, false), Dropped::Refused(t) if t == "Echo can't go on B: it has no sound"));
    assert!(matches!(drop_on_clip(&drag, ItemId(2), "Blur", "B", false, true), Dropped::Copy));
    assert_eq!(copied_notice("Blur", "B", 1, false), Some("Copied Blur onto B.".to_string()));
    assert_eq!(copied_notice("Blur", "B", 0, false), Some("B already has Blur with these settings.".to_string()));
    assert_eq!(copied_notice("Blur", "B", 0, true), None);
    assert_eq!(contained(&drag).role, EffectRole::Passive);
    assert_eq!(container_made(0, 3, 4), Container::Undo);
    assert_eq!(container_made(0, 3, 3), Container::Select);
    assert_eq!(container_made(1, 3, 4), Container::Select);
    assert_eq!(container_texts("Blur", "overlap").1, "can't start a container there: overlap");
    assert_eq!(scaling_label(MediaScaling::Auto, MediaScaling::Auto, true).0, "Automatic (pixel)");
    assert_eq!(scaling_label(MediaScaling::Auto, MediaScaling::Smooth, true).0, "Automatic (smooth)");
    let edit = set_scaling(MediaId(4), MediaScaling::Pixel);
    assert_eq!((edit.label.as_str(), edit.key), ("Scale mode", None));
    assert!(matches!(edit.ops[..], [Op::SetMediaScaling { media: MediaId(4), scaling: MediaScaling::Pixel }]));
}

fn info(video: bool) -> MediaInfo {
    MediaInfo { width: 16, height: 8, duration: secs(3), rate: None, has_video: video, has_audio: !video, still: video, color_tags: 0 }
}

fn media(id: u64, path: &str, fingerprint: &str) -> MediaRef {
    MediaRef { id: MediaId(id), path: path.to_string(), fingerprint: Some(fingerprint.to_string()), info: Some(info(true)), scaling: MediaScaling::Auto, color: InputColor::default(), folder: String::new() }
}

fn imported(path: &str, fingerprint: &str) -> Imported {
    Imported {
        path: path.to_string(),
        name: "E.png".to_string(),
        fingerprint: fingerprint.to_string(),
        kind: MediaKind::Still,
        decode_path: format!("{path}.copy"),
        conformed: Some("smaller".to_string()),
        info: info(true),
        about: "16×8 picture".to_string(),
    }
}

#[test]
fn importing_a_file_twice_keeps_one() {
    let known = vec![media(40, "/a/E.png", "f1")];
    assert!(matches!(Editor::add_media(&known, &imported("/b/E.png", "f1"), MediaId(41)), Import::Existing(MediaId(40))));
    match Editor::add_media(&known, &imported("/b/F.png", "f2"), MediaId(41)) {
        Import::New { media, item } => {
            assert_eq!((media.id, item.id), (MediaId(41), MediaId(41)));
            assert_eq!(item.kind, MediaKind::Still);
            assert!(!item.missing);
            assert_eq!((item.decode_path.as_str(), item.conformed.as_deref()), ("/b/F.png.copy", Some("smaller")));
            assert_eq!((media.path.as_str(), media.scaling, media.color), ("/b/F.png", MediaScaling::Auto, InputColor::default()));
            assert_eq!((media.info, item.duration), (Some(info(true)), secs(3)));
        }
        Import::Existing(_) => panic!("a new file"),
    }
}

#[test]
fn files_are_found_again_or_flagged() {
    let all = vec![
        Reopened { media: media(1, "/a/E.png", "f1"), name: Some("E.png".to_string()), found: Found::Kept, import: Ok(imported("/a/E.png", "f1")) },
        Reopened {
            media: media(2, "/a/F.png", "f2"),
            name: Some("F.png".to_string()),
            found: Found::Relinked("/s/F.png".to_string()),
            import: Ok(imported("/s/F.png", "f2")),
        },
        Reopened { media: media(3, "/a/G.png", "f3"), name: Some("G.png".to_string()), found: Found::Gone, import: Err(String::new()) },
    ];
    let (pool, warnings, relinks) = reopen(&all);
    assert_eq!(pool.iter().map(|p| p.missing).collect::<Vec<bool>>(), vec![false, false, true]);
    assert!(warnings.iter().any(|w| w.starts_with("relinked")), "{warnings:?}");
    assert!(warnings.iter().any(|w| w.starts_with("missing:")), "{warnings:?}");
    assert_eq!(relinks, vec![(MediaId(2), "/s/F.png".to_string())]);
    let mut sound = media(4, "/a/h.wav", "f4");
    sound.info = Some(info(false));
    let gone = missing_item(&sound, &Some("h.wav".to_string()));
    assert_eq!((gone.kind, gone.name.as_str(), gone.decode_path.as_str()), (MediaKind::Audio, "h.wav", "/a/h.wav"));
    assert_eq!(missing_item(&sound, &None).name, "/a/h.wav");
    assert!(takes_color_tags(true, true, false) && !takes_color_tags(true, false, false));
}

#[test]
fn projects_need_a_video_track() {
    let d = Doc::new();
    assert_eq!(default_tracks(Some(&d.e.timeline)), Ok((TrackId(2), TrackId(3))));
    assert_eq!(default_tracks(None), Err(OpenError::NoSequences));
    let mut s = d.e.timeline.copy();
    s.tracks = vec![Track::new(TrackId(9), "A1".to_string(), TrackKind::Audio, false)];
    assert_eq!(default_tracks(Some(&s)), Err(OpenError::NoVideoTrack));
    assert_eq!(open_error(OpenError::NoSequences), "project has no sequences");
    assert_eq!(open_error(OpenError::NoVideoTrack), "project has no video track");
}

#[test]
fn steps_are_called_by_what_they_do() {
    let op = || vec![Op::RemoveItem { seq: SeqId(1), item: ItemId(2) }];
    let of = |step: Step| step.of(op()).map(|e| (e.label, e.key));
    let plain = |label: &str| Some((label.to_string(), None));
    let drag = |label: &str, key: &str| Some((label.to_string(), Some(key.to_string())));
    assert_eq!(of(Step::Delete), plain("Delete"));
    assert_eq!(of(Step::RippleDelete), drag("Ripple delete", "ripple-delete-selection"));
    assert_eq!(of(Step::BreakApart), drag("Break apart", "break-apart"));
    assert_eq!(of(Step::Crop), drag("Crop", "viewer-crop"));
    assert_eq!(of(Step::KeyframeLine), drag("keyframe-line", "keyframe-line"));
    assert_eq!(of(Step::Transform("transform.scale".to_string())), drag("Transform", "transform.scale"));
    assert_eq!(of(Step::Setting("text.size".to_string())), drag("text.size", "text.size"));
    assert_eq!(of(enabling(true)), plain("Enable clips"));
    assert_eq!(of(enabling(false)), plain("Disable clips"));
    assert_eq!(of(compounding(true)), plain("Nest clips"));
    assert_eq!(of(compounding(false)), plain("Make compound clip"));
    assert!(Step::Delete.of(Vec::new()).is_none());
}
