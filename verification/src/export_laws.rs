//! What holds of the export window's choices.
use crate::doc::Time;
use crate::export::{
    codec_named, encoder_for, even_side, name_char, part_of, parts_for, quality_of, stem_of,
    without_ends, Encoder, VideoCodec, SHORTEST,
};
use vstd::prelude::*;

verus! {

/// Sides are even, at least two, and lose one pixel at most.
pub proof fn sides_lose_a_pixel_at_most(x: u32)
    ensures
        even_side(x) % 2 == 0,
        even_side(x) >= 2,
        x >= 2 ==> even_side(x) <= x < even_side(x) + 2,
        x < 2 ==> even_side(x) == 2,
{
}

/// The keys of the file types differ, and so do their starts.
proof fn keys_are_apart()
    ensures
        "gif"@ != "h264"@,
        "gif"@ != "hevc"@,
        "gif"@ != "webm"@,
        "gif"@ != "prores"@,
        "gif"@ != "prores4444"@,
        "h264"@ != "hevc"@,
        "h264"@ != "webm"@,
        "hevc"@ != "webm"@,
        "h264"@ != "prores"@,
        "h264"@ != "prores4444"@,
        "hevc"@ != "prores"@,
        "hevc"@ != "prores4444"@,
        "webm"@ != "prores"@,
        "webm"@ != "prores4444"@,
        "prores"@ != "prores4444"@,
        !"prores"@.is_prefix_of("gif"@),
        !"prores"@.is_prefix_of("h264"@),
        !"prores"@.is_prefix_of("hevc"@),
        !"prores"@.is_prefix_of("webm"@),
        "prores"@.is_prefix_of("prores"@),
        "prores"@.is_prefix_of("prores4444"@),
{
    reveal_strlit("gif");
    reveal_strlit("h264");
    reveal_strlit("hevc");
    reveal_strlit("webm");
    reveal_strlit("prores");
    reveal_strlit("prores4444");
    assert("h264"@[1] == '2');
    assert("hevc"@[1] == 'e');
    assert("webm"@[0] == 'w');
    assert("h264"@[0] == 'h');
    assert("hevc"@[0] == 'h');
    assert("prores"@.len() == 6);
    assert("prores4444"@.len() == 10);
    assert("gif"@.len() == 3);
    assert("h264"@.len() == 4);
    assert("webm"@.len() == 4);
    assert("hevc"@.len() == 4);
    assert("prores"@ =~= "prores4444"@.subrange(0, 6));
}

/// The window offers just what the file type picked has: a frame rate for GIFs, a quality
/// where the codec has one (ProRes and GIF have none), an encoder but for GIFs, the graphics
/// card's where it has one for the codec.
pub proof fn the_window_offers_what_the_type_has(key: Seq<char>, gif_fps: u32)
    requires
        key == "h264"@ || key == "hevc"@ || key == "prores"@ || key == "prores4444"@ || key
            == "webm"@ || key == "gif"@,
    ensures
        ({
            let codec = codec_named(key, gif_fps);
            let offered = parts_for(key);
            &&& offered.frame_rate <==> codec is Gif
            &&& offered.quality <==> !(codec is Gif || codec is ProRes || codec is ProRes4444)
            &&& offered.encoder <==> !(codec is Gif)
            &&& offered.hardware <==> codec is H264 || codec is Hevc
            &&& codec is Gif ==> codec == VideoCodec::Gif { fps: gif_fps }
        }),
        codec_named(key, gif_fps) is H264 <==> key == "h264"@,
        codec_named(key, gif_fps) is Hevc <==> key == "hevc"@,
        codec_named(key, gif_fps) is ProRes <==> key == "prores"@,
        codec_named(key, gif_fps) is ProRes4444 <==> key == "prores4444"@,
        codec_named(key, gif_fps) is WebmAlpha <==> key == "webm"@,
        codec_named(key, gif_fps) is Gif <==> key == "gif"@,
{
    keys_are_apart();
}

/// How good a quality's name says it is.
pub open spec fn rank(label: Seq<char>) -> int {
    if label == "Very high"@ {
        3
    } else if label == "High"@ {
        2
    } else if label == "Standard"@ {
        1
    } else {
        0
    }
}

/// Stronger compression never has the better name. The names change at 15, 19 and 24.
pub proof fn stronger_compression_is_no_better(a: u32, b: u32)
    requires
        a <= b,
    ensures
        rank(quality_of(a)) >= rank(quality_of(b)),
        rank(quality_of(a)) == 3 <==> a <= 15,
        rank(quality_of(a)) >= 2 <==> a <= 19,
        rank(quality_of(a)) >= 1 <==> a <= 24,
{
    reveal_strlit("Very high");
    reveal_strlit("High");
    reveal_strlit("Standard");
    reveal_strlit("Small file");
    assert("Very high"@.len() == 9);
    assert("High"@.len() == 4);
    assert("Standard"@.len() == 8);
    assert("Small file"@.len() == 10);
}

/// The encoder picked is used where the codec leaves a choice; other codecs have just one.
pub proof fn the_encoder_is_the_one_picked(picked: Seq<char>, codec: VideoCodec)
    ensures
        encoder_for(picked, codec) == Encoder::MediaFoundation ==> picked == "hardware"@ && (
        codec == VideoCodec::H264 || codec == VideoCodec::Hevc),
        (codec == VideoCodec::H264 || codec == VideoCodec::Hevc) && picked == "hardware"@
            ==> encoder_for(picked, codec) == Encoder::MediaFoundation,
        (codec == VideoCodec::H264 || codec == VideoCodec::Hevc) && picked == "software"@
            ==> encoder_for(picked, codec) == Encoder::Ffmpeg,
        (codec == VideoCodec::H264 || codec == VideoCodec::Hevc) && picked != "software"@ && picked
            != "hardware"@ ==> encoder_for(picked, codec) == Encoder::Auto,
        codec != VideoCodec::H264 && codec != VideoCodec::Hevc ==> encoder_for(picked, codec)
            == Encoder::Ffmpeg,
{
    reveal_strlit("hardware");
    reveal_strlit("software");
    assert("hardware"@[0] == 'h');
    assert("software"@[0] == 's');
}

/// The text `n` times over.
pub open spec fn times_over(end: Seq<char>, n: nat) -> Seq<char>
    decreases n,
{
    if n == 0 {
        Seq::empty()
    } else {
        end + times_over(end, (n - 1) as nat)
    }
}

/// What's taken off the end is the ending, as often as it's there. `n` is how often.
pub proof fn all_of_the_endings_come_off(s: Seq<char>, end: Seq<char>) -> (n: nat)
    requires
        end.len() > 0,
    ensures
        s == without_ends(s, end) + times_over(end, n),
        !end.is_suffix_of(without_ends(s, end)),
    decreases s.len(),
{
    if end.is_suffix_of(s) {
        let rest = s.take(s.len() - end.len());
        let n = all_of_the_endings_come_off(rest, end);
        more_at_the_end(end, n);
        assert(s =~= rest + end);
        assert(s =~= without_ends(s, end) + times_over(end, n + 1));
        n + 1
    } else {
        assert(s =~= s + times_over(end, 0));
        0
    }
}

/// One more at the end is one more at the start.
proof fn more_at_the_end(end: Seq<char>, n: nat)
    ensures
        times_over(end, n) + end == times_over(end, n + 1),
    decreases n,
{
    if n == 0 {
        assert(times_over(end, 0) + end =~= end + times_over(end, 0));
    } else {
        more_at_the_end(end, (n - 1) as nat);
        assert(times_over(end, n) + end =~= end + (times_over(end, (n - 1) as nat) + end));
    }
}

/// A project's files are named after the project file, without its endings; a project that
/// was never saved is called "export".
pub proof fn files_are_named_after_the_project(name: Seq<char>) -> (n: (nat, nat))
    ensures
        name == stem_of(Some(name)) + times_over(".oaproj"@, n.1) + times_over(".json"@, n.0),
        !".oaproj"@.is_suffix_of(stem_of(Some(name))),
        stem_of(None) == "export"@,
{
    reveal_strlit(".json");
    reveal_strlit(".oaproj");
    assert(".json"@.len() == 5);
    assert(".oaproj"@.len() == 7);
    let a = all_of_the_endings_come_off(name, ".json"@);
    let b = all_of_the_endings_come_off(without_ends(name, ".json"@), ".oaproj"@);
    (a, b)
}

/// Letters, digits, blanks, dashes and dots stay in a file's name; all else becomes a dash.
pub proof fn names_keep_what_is_safe(c: char, letter: bool)
    ensures
        letter ==> name_char(c, letter) == c,
        c == ' ' || c == '-' || c == '.' ==> name_char(c, letter) == c,
        name_char(c, letter) == c || name_char(c, letter) == '-',
        !letter && c != ' ' && c != '.' ==> name_char(c, letter) == '-',
{
}

/// The two moments can be typed in either order; a part that's inside the timeline and long
/// enough is just what was typed.
pub proof fn a_part_is_what_was_typed(a: Time, b: Time, whole: Time)
    requires
        0 <= whole.0,
    ensures
        part_of(a, b, whole) == part_of(b, a, whole),
        0 <= a.0 && a.0 + SHORTEST <= b.0 && b.0 <= whole.0 ==> part_of(a, b, whole) == (
            a.0 as int,
            b.0 as int,
        ),
        a.0 <= b.0 && 0 <= a.0 <= whole.0 ==> part_of(a, b, whole).0 == a.0,
        a.0 <= b.0 && a.0 < 0 ==> part_of(a, b, whole).0 == 0,
{
}

} // verus!
