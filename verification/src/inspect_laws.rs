//! What holds of the inspector, its menus, the commands and what's told of them.
use crate::caption_style::is_title;
use crate::caption_track::setting_with;
use crate::cards::not_this;
use crate::clips::{is_compound, is_grouped};
use crate::color::{automatic, ColorPick, InputColor};
use crate::command::{
    command_at, ids_tell_commands_apart, runs, CommandModel, State, COUNT,
};
use crate::doc::{
    effect_at, effect_place_is_right, item_of, EffectModel, ItemId, ItemModel, MediaId, OpModel,
    ParamModel, ParamTarget, SeqId, SequenceModel, TrackKind, TrackModel, VariantId, VariantModel,
};
use crate::editor::{is_type, other_than, source_of, with_media, PoolItem};
use crate::effects::of_this_type;
use crate::formats::is_format;
use crate::guard::is_there;
use crate::inspector::{
    can_highlight, feeds, has_tab, has_type, menu_of, spaced, spoken_place, stripped, unsetter,
    PropertyEntry, SpokenEntry, Tab,
};
use crate::outcomes::{pieces_of, trouble_of, Broken};
use crate::placing::{effects_of, not_among, plain};
use crate::seqs::{first_is_right, first_where};
use crate::session::{reopen_warnings, with_fingerprint, Found, MediaRef, Reopened};
use vstd::prelude::*;

verus! {

// ---- commands ----

/// A command is on just where it can do something: undoing where there's something to undo,
/// clip commands where clips of the right sort are selected, pasting where something was copied.
pub proof fn commands_are_on_where_they_can_do_something(s: State, i: int)
    requires
        0 <= i < COUNT,
    ensures
        ({
            let c = command_at(s, i);
            &&& c.id == "project.export"@ ==> c.enabled == !s.exporting
            &&& c.id == "edit.undo"@ ==> c.enabled == s.can_undo
            &&& c.id == "edit.redo"@ ==> c.enabled == s.can_redo
            &&& c.id == "edit.cut"@ || c.id == "edit.copy"@ || c.id == "edit.duplicate"@ || c.id
                == "edit.delete"@ || c.id == "edit.ripple_delete"@ ==> c.enabled == (s.selected
                >= 1)
            &&& c.id == "edit.paste"@ ==> c.enabled == s.clipboard
            &&& c.id == "edit.select_all"@ ==> c.enabled == s.clips
            &&& c.id == "clip.split"@ || c.id == "clip.enable"@ || c.id == "clip.compound"@ || c.id
                == "clip.nest"@ ==> c.enabled == (s.selected >= 1)
            &&& c.id == "clip.group"@ ==> c.enabled == (s.selected >= 2)
            &&& c.id == "clip.ungroup"@ ==> c.enabled == s.grouped
            &&& c.id == "clip.extract_audio"@ ==> c.enabled == s.extractable
            &&& c.id == "clip.break"@ ==> c.enabled == s.compound
            &&& c.id == "clip.copy_effects"@ ==> c.enabled == s.one
            &&& c.id == "clip.paste_effects"@ ==> c.enabled == (s.effects && s.selected >= 1)
            &&& c.id == "clip.copy_transform"@ ==> c.enabled == (s.one && s.picture)
            &&& c.id == "clip.paste_transform"@ ==> c.enabled == (s.transform && s.selected >= 1)
        }),
{
    let c = command_at(s, i);
    let id = c.id;
    if id == "project.export"@ {
        ids_tell_commands_apart(s, i, 5);
    }
    if id == "edit.undo"@ {
        ids_tell_commands_apart(s, i, 7);
    }
    if id == "edit.redo"@ {
        ids_tell_commands_apart(s, i, 8);
    }
    if id == "edit.cut"@ {
        ids_tell_commands_apart(s, i, 9);
    }
    if id == "edit.copy"@ {
        ids_tell_commands_apart(s, i, 10);
    }
    if id == "edit.paste"@ {
        ids_tell_commands_apart(s, i, 11);
    }
    if id == "edit.duplicate"@ {
        ids_tell_commands_apart(s, i, 12);
    }
    if id == "edit.delete"@ {
        ids_tell_commands_apart(s, i, 13);
    }
    if id == "edit.ripple_delete"@ {
        ids_tell_commands_apart(s, i, 14);
    }
    if id == "edit.select_all"@ {
        ids_tell_commands_apart(s, i, 15);
    }
    if id == "clip.split"@ {
        ids_tell_commands_apart(s, i, 16);
    }
    if id == "clip.group"@ {
        ids_tell_commands_apart(s, i, 17);
    }
    if id == "clip.ungroup"@ {
        ids_tell_commands_apart(s, i, 18);
    }
    if id == "clip.enable"@ {
        ids_tell_commands_apart(s, i, 19);
    }
    if id == "clip.extract_audio"@ {
        ids_tell_commands_apart(s, i, 20);
    }
    if id == "clip.compound"@ {
        ids_tell_commands_apart(s, i, 21);
    }
    if id == "clip.nest"@ {
        ids_tell_commands_apart(s, i, 22);
    }
    if id == "clip.break"@ {
        ids_tell_commands_apart(s, i, 23);
    }
    if id == "clip.copy_effects"@ {
        ids_tell_commands_apart(s, i, 24);
    }
    if id == "clip.paste_effects"@ {
        ids_tell_commands_apart(s, i, 25);
    }
    if id == "clip.copy_transform"@ {
        ids_tell_commands_apart(s, i, 26);
    }
    if id == "clip.paste_transform"@ {
        ids_tell_commands_apart(s, i, 27);
    }
}

// ---- the inspector ----

/// Every clip has properties; what's seen has transitions and effects, what's heard has sound.
pub proof fn tabs_are_for_what_there_is(visual: bool, audible: bool)
    ensures
        has_tab(Tab::Properties, visual, audible),
        has_tab(Tab::Transitions, visual, audible) <==> visual,
        has_tab(Tab::Effects, visual, audible) <==> visual,
        has_tab(Tab::Sound, visual, audible) <==> audible,
{
}

/// A file is offered to feed an effect just where it's there and has a picture, by its own id
/// and name.
pub proof fn pictures_that_are_there_are_offered(p: PoolItem)
    ensures
        feeds()(p) is Some <==> !p.missing && p.has_video,
        feeds()(p) is Some ==> (feeds()(p)->0).id == p.id.0 && (feeds()(p)->0).name == p.name@,
{
}

/// What's before a suffix is the name without it.
pub proof fn suffixes_come_off(s: Seq<char>, suffix: Seq<char>)
    ensures
        stripped(s + suffix, suffix) == Some(s),
        stripped(s, suffix) is Some ==> s == stripped(s, suffix)->0 + suffix,
{
    assert(suffix =~= (s + suffix).subrange(s.len() as int, (s + suffix).len() as int));
    assert((s + suffix).take(s.len() as int) =~= s);
    if suffix.is_suffix_of(s) {
        assert(s =~= s.take(s.len() - suffix.len()) + suffix);
    }
}

/// In a label dashes and underscores are blanks; all else stays as it is.
pub proof fn labels_have_blanks_for_dashes(s: Seq<char>, i: int)
    requires
        0 <= i < s.len(),
    ensures
        spaced(s).len() == s.len(),
        spaced(s)[i] == if s[i] == '_' || s[i] == '-' {
            ' '
        } else {
            s[i]
        },
{
}

/// Only a title's settings can differ on the spoken word, and only those that are meant to: some
/// of its own, and those of effects for text. A setting for the spoken word has none itself.
pub proof fn only_titles_highlight_words(
    s: SequenceModel,
    item: ItemId,
    target: ParamTarget,
    param: Seq<char>,
    suffix: Seq<char>,
    title_settings: Seq<Seq<char>>,
    text_effects: Seq<Seq<char>>,
)
    ensures
        can_highlight(s, item, target, param, suffix, title_settings, text_effects) ==> {
            &&& item_of(s, item) is Some && item_of(s, item)->0.kind is Text
            &&& !suffix.is_suffix_of(param)
            &&& target is Item ==> title_settings.contains(param)
            &&& target is Item || target is Effect
        },
        item_of(s, item) is Some && item_of(s, item)->0.kind is Text && !suffix.is_suffix_of(param)
            && target is Item && title_settings.contains(param) ==> can_highlight(
            s,
            item,
            target,
            param,
            suffix,
            title_settings,
            text_effects,
        ),
        item_of(s, item) is Some && item_of(s, item)->0.kind is Text && !suffix.is_suffix_of(param)
            ==> (target matches ParamTarget::Effect(id) ==> (can_highlight(
            s,
            item,
            target,
            param,
            suffix,
            title_settings,
            text_effects,
        ) <==> exists|i: int|
            0 <= i < item_of(s, item)->0.effects.len() && (
            #[trigger] item_of(s, item)->0.effects[i]).id == id && text_effects.contains(
                item_of(s, item)->0.effects[i].type_id,
            ) && forall|k: int|
                0 <= k < i ==> (#[trigger] item_of(s, item)->0.effects[k]).id != id)),
{
    if let ParamTarget::Effect(id) = target {
        if let Some(it) = item_of(s, item) {
            effect_place_is_right(it.effects, id, 0);
            if exists|i: int|
                0 <= i < it.effects.len() && (#[trigger] it.effects[i]).id == id
                    && text_effects.contains(it.effects[i].type_id) && forall|k: int|
                    0 <= k < i ==> (#[trigger] it.effects[k]).id != id {
                let i = choose|i: int|
                    0 <= i < it.effects.len() && (#[trigger] it.effects[i]).id == id
                        && text_effects.contains(it.effects[i].type_id) && forall|k: int|
                        0 <= k < i ==> (#[trigger] it.effects[k]).id != id;
                assert(effect_at(it.effects, id) == Some(i)) by {
                    let f = effect_at(it.effects, id);
                    assert(f is Some);
                    assert(it.effects[f->0].id == id);
                }
            }
        }
    }
}

/// The same property on another clip is its own, or that of its first effect of the same type.
pub proof fn the_same_property_is_found(
    s: SequenceModel,
    item: ItemId,
    target: ParamTarget,
    other: ItemId,
)
    ensures
        spoken_place(s, item, target, other) matches Some(p) ==> p.0 == other,
        !(target is Effect) ==> spoken_place(s, item, target, other) == Some((other, target)),
        target matches ParamTarget::Effect(id) ==> (spoken_place(
            s,
            item,
            target,
            other,
        ) matches Some(p) ==> item_of(s, item) is Some && item_of(s, other) is Some && effect_at(
            item_of(s, item)->0.effects,
            id,
        ) is Some && exists|j: int|
            0 <= j < item_of(s, other)->0.effects.len() && p.1 == ParamTarget::Effect(
                (#[trigger] item_of(s, other)->0.effects[j]).id,
            ) && item_of(s, other)->0.effects[j].type_id == item_of(s, item)->0.effects[effect_at(
                item_of(s, item)->0.effects,
                id,
            )->0].type_id),
{
    if let ParamTarget::Effect(id) = target {
        if let Some(it) = item_of(s, item) {
            if let Some(i) = effect_at(it.effects, id) {
                if let Some(o) = item_of(s, other) {
                    first_is_right(o.effects, has_type(it.effects[i].type_id), 0);
                    if let Some(j) = first_where(o.effects, has_type(it.effects[i].type_id)) {
                        assert(o.effects[j].type_id == it.effects[i].type_id);
                    }
                }
            }
        }
    }
}

/// A setting is taken away just where it's set, in its own place.
pub proof fn what_is_set_is_taken_away(s: SequenceModel, key: Seq<char>, p: (ItemId, ParamTarget))
    ensures
        unsetter(s, key)(p) is Some <==> source_of(s, p.0, p.1, key) is Some,
        unsetter(s, key)(p) matches Some(op) ==> op == (OpModel::SetParam {
            seq: s.id,
            item: p.0,
            target: p.1,
            param: key,
            source: None,
        }),
{
}

/// A menu always offers to copy, paste and reset, in this order; the rest just where it can be
/// done.
pub proof fn menus_offer_what_can_be_done(
    pastable: bool,
    line: Option<bool>,
    tracks: Option<bool>,
    spoken: SpokenEntry,
)
    ensures
        ({
            let m = menu_of(pastable, line, tracks, spoken);
            &&& m.len() >= 3 && m[0] == PropertyEntry::Copy && m[1] == PropertyEntry::Paste(
                pastable,
            ) && m[2] == PropertyEntry::Reset
            &&& m.len() == 3 + (if line is Some {
                4int
            } else {
                0
            }) + (if tracks == Some(true) {
                2int
            } else if tracks == Some(false) {
                1
            } else {
                0
            }) + (if spoken is Nothing {
                0int
            } else {
                1
            })
            &&& line is Some ==> m[3] == PropertyEntry::Curve && m[4] == PropertyEntry::Wave && m[5]
                == PropertyEntry::Connection && m[6] == PropertyEntry::Line(line->0)
            &&& spoken is Highlight ==> m.last() == PropertyEntry::Highlight
            &&& spoken is Remove ==> m.last() == PropertyEntry::RemoveHighlight
            &&& tracks is Some ==> m[if line is Some {
                7int
            } else {
                3
            }] == PropertyEntry::Track
            &&& tracks == Some(true) ==> m[if line is Some {
                8int
            } else {
                4
            }] == PropertyEntry::Stabilize
        }),
{
}

// ---- colors ----

/// Picking one thing about a file's colors changes just that.
pub proof fn picks_change_one_thing(c: InputColor, pick: ColorPick)
    ensures
        match pick {
            ColorPick::Transfer(x) => c.with(pick).transfer == x && c.with(pick).gamut == c.gamut
                && c.with(pick).range == c.range && c.with(pick).matrix == c.matrix,
            ColorPick::Gamut(x) => c.with(pick).gamut == x && c.with(pick).transfer == c.transfer
                && c.with(pick).range == c.range && c.with(pick).matrix == c.matrix,
            ColorPick::Range(x) => c.with(pick).range == x && c.with(pick).gamut == c.gamut
                && c.with(pick).transfer == c.transfer && c.with(pick).matrix == c.matrix,
            ColorPick::Matrix(x) => c.with(pick).matrix == x && c.with(pick).gamut == c.gamut
                && c.with(pick).range == c.range && c.with(pick).transfer == c.transfer,
            ColorPick::Reset => c.with(pick) == automatic(),
        },
{
}

// ---- what came of it ----

/// Pieces are on the timeline just where breaking a compound apart was done; where it wasn't,
/// there's a word on why (a clip at another speed is told of in the end).
pub proof fn pieces_are_there_where_it_was_done(b: Broken)
    ensures
        b matches Broken::Apart { clips, dropped, applied } ==> (applied is Ok ==> pieces_of(b)
            == clips@ && trouble_of(b) is None) && (applied is Err ==> pieces_of(b).len() == 0
            && trouble_of(b) == Some("can't break it apart: "@ + (applied->Err_0)@)),
        b is Retimed ==> pieces_of(b).len() == 0 && trouble_of(b) is None,
        b matches Broken::Failed(e) ==> pieces_of(b).len() == 0 && trouble_of(b) == Some(
            "can't break it apart: "@ + e@,
        ),
{
}

/// A file that's where it was and can be read isn't worth a word; one that moved, that can't be
/// read or that's gone is told of by its path.
pub proof fn trouble_with_files_is_told(r: Reopened)
    ensures
        r.found is Kept && r.import is Ok ==> reopen_warnings(r).len() == 0,
        r.found is Gone ==> reopen_warnings(r) == seq!["missing: "@ + r.media.path@],
        r.found is Kept && r.import is Err ==> reopen_warnings(r) == seq![
            r.media.path@ + ": "@ + (r.import->Err_0)@,
        ],
        r.found matches Found::Relinked(to) ==> reopen_warnings(r).len() == (if r.import is Ok {
            1int
        } else {
            2
        }) && reopen_warnings(r)[0] == "relinked "@ + r.media.path@ + " \u{2192} "@ + to@,
{
    if r.found is Kept && r.import is Err {
        assert(reopen_warnings(r) =~= seq![r.media.path@ + ": "@ + (r.import->Err_0)@]);
    }
}

// ---- what's picked out ----

/// What's looked for by a name or an id is what has it: an effect by its type, a file by its id
/// or by what its contents hash to, a format and a setting by their ids, a command by its id if
/// it's on.
pub proof fn what_is_looked_for_has_its_name(
    e: EffectModel,
    pool: PoolItem,
    media: MediaRef,
    v: VariantModel,
    setting: ParamModel,
    c: CommandModel,
    name: Seq<char>,
    id: MediaId,
    format: VariantId,
)
    ensures
        of_this_type(name)(e) <==> e.type_id == name,
        has_type(name)(e) <==> e.type_id == name,
        is_type(name)(e) <==> e.type_id == name,
        with_media(id)(pool) <==> pool.id == id,
        with_fingerprint(name)(media) <==> media.fingerprint is Some && (media.fingerprint->0)@
            == name,
        is_format(format)(v) <==> v.id == format,
        setting_with(name)(setting) <==> setting.id == name,
        runs(name)(c) <==> c.id == name && c.enabled,
{
}

/// What's left out by its id is left out, and only that: a clip among others, a compound that
/// holds the timeline, clips that are gone.
pub proof fn what_is_left_out_is_that_alone(
    item: ItemId,
    other: ItemId,
    around: Seq<SeqId>,
    seq: SeqId,
    there: Seq<ItemId>,
)
    ensures
        not_this(item)(other) <==> other != item,
        other_than(item)(other) <==> other != item,
        not_among(around)(seq) <==> !around.contains(seq),
        is_there(there)(other) <==> there.contains(other),
{
}

/// Clips are told by what they play and by where they are: compounds play another timeline,
/// tracks hold clips unless they're effect tracks.
pub proof fn clips_are_told_by_what_they_play(
    s: SequenceModel,
    id: ItemId,
    t: TrackModel,
    kind: TrackKind,
    it: ItemModel,
)
    ensures
        is_compound(s)(id) <==> item_of(s, id) is Some && item_of(s, id)->0.kind is Nested,
        is_grouped(s)(id) <==> item_of(s, id) is Some && item_of(s, id)->0.group is Some,
        plain(kind)(t) <==> t.kind == kind && !t.effects,
        effects_of(kind)(t) <==> t.kind == kind && t.effects,
        is_title()(it) <==> it.kind is Text,
{
}

} // verus!
