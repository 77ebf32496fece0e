//! The configuration program: its settings, how it reads and writes
//! FFmpegEncoder.ini, and how the choices on its form map to settings.
use vstd::prelude::*;

use crate::config::{apply_settings, default_settings, settings_of, unread_settings, with_rate_mode, ConfigView as FilterView};
use crate::ini::{entry_view, ini_entries, ini_scan, ini_step, read_entries, IniEntry};
use crate::text::{
    append_text, dec_int, decimal, first_index_of, flag_value, int_or,
    is_flag_on, is_ws, lemma_dec_nat, lemma_parse_dec_i32, lines, lines_from, lower, lower_seq,
    lowercase, owned, parse_i32, same, string_of, strip_cr, trim, trim_end, trim_start,
};

verus! {

/// The settings the configuration program reads and writes.
#[derive(Clone, Debug)]
pub struct Config {
    pub ffmpeg_path: String,
    pub codec: String,
    pub preset: String,
    pub crf: i32,
    pub bitrate: i32,
    pub rate_mode: String,
    pub extra: String,
    pub container: String,
    pub container_path: String,
    pub alpha_format: String,
    pub debug: bool,
    pub delete_avi: bool,
    pub merge_audio: bool,
}

pub struct ConfigView {
    pub ffmpeg_path: Seq<char>,
    pub codec: Seq<char>,
    pub preset: Seq<char>,
    pub crf: i32,
    pub bitrate: i32,
    pub rate_mode: Seq<char>,
    pub extra: Seq<char>,
    pub container: Seq<char>,
    pub container_path: Seq<char>,
    pub alpha_format: Seq<char>,
    pub debug: bool,
    pub delete_avi: bool,
    pub merge_audio: bool,
}

impl View for Config {
    type V = ConfigView;

    open spec fn view(&self) -> ConfigView {
        ConfigView {
            ffmpeg_path: self.ffmpeg_path@,
            codec: self.codec@,
            preset: self.preset@,
            crf: self.crf,
            bitrate: self.bitrate,
            rate_mode: self.rate_mode@,
            extra: self.extra@,
            container: self.container@,
            container_path: self.container_path@,
            alpha_format: self.alpha_format@,
            debug: self.debug,
            delete_avi: self.delete_avi,
            merge_audio: self.merge_audio,
        }
    }
}

/// The settings used before anything is saved.
pub open spec fn ui_defaults() -> ConfigView {
    ConfigView {
        ffmpeg_path: "ffmpeg"@,
        codec: "auto"@,
        preset: "veryfast"@,
        crf: 18,
        bitrate: 0,
        rate_mode: "crf"@,
        extra: seq![],
        container: "mp4"@,
        container_path: seq![],
        alpha_format: seq![],
        debug: false,
        delete_avi: true,
        merge_audio: true,
    }
}

impl Default for Config {
    fn default() -> (r: Self)
        ensures
            r@ == ui_defaults(),
    {
        Config {
            ffmpeg_path: owned("ffmpeg"),
            codec: owned("auto"),
            preset: owned("veryfast"),
            crf: 18,
            bitrate: 0,
            rate_mode: owned("crf"),
            extra: String::new(),
            container: owned("mp4"),
            container_path: String::new(),
            alpha_format: String::new(),
            debug: false,
            delete_avi: true,
            merge_audio: true,
        }
    }
}

pub open spec fn number_or(v: Seq<char>, default: i32) -> i32 {
    match parse_i32(v) {
        Some(x) => x,
        None => default,
    }
}

/// One setting of the file applied to the settings read so far; codec, rate
/// mode, container and transparent mode are kept in lower case.
pub open spec fn apply_ui_setting(c: ConfigView, e: (Seq<char>, Seq<char>, Seq<char>)) -> ConfigView {
    let (s, k, v) = e;
    if s == "ffmpeg"@ {
        if k == "path"@ {
            ConfigView { ffmpeg_path: v, ..c }
        } else if k == "debug"@ {
            ConfigView { debug: flag_value(v), ..c }
        } else {
            c
        }
    } else if s == "video"@ {
        if k == "codec"@ {
            ConfigView { codec: lower_seq(v), ..c }
        } else if k == "preset"@ {
            ConfigView { preset: v, ..c }
        } else if k == "crf"@ {
            ConfigView { crf: number_or(v, 18), ..c }
        } else if k == "bitrate"@ {
            ConfigView { bitrate: number_or(v, 0), ..c }
        } else if k == "rate_mode"@ {
            ConfigView { rate_mode: lower_seq(v), ..c }
        } else if k == "extra"@ {
            ConfigView { extra: v, ..c }
        } else if k == "container"@ {
            ConfigView { container: lower_seq(v), ..c }
        } else if k == "container_path"@ {
            ConfigView { container_path: v, ..c }
        } else if k == "alpha_format"@ {
            ConfigView { alpha_format: lower_seq(v), ..c }
        } else if k == "delete_avi"@ {
            ConfigView { delete_avi: flag_value(v), ..c }
        } else if k == "merge_audio"@ {
            ConfigView { merge_audio: flag_value(v), ..c }
        } else {
            c
        }
    } else {
        c
    }
}

pub open spec fn apply_ui_settings(c: ConfigView, es: Seq<(Seq<char>, Seq<char>, Seq<char>)>) -> ConfigView
    decreases es.len(),
{
    if es.len() == 0 {
        c
    } else {
        apply_ui_setting(apply_ui_settings(c, es.drop_last()), es.last())
    }
}

/// The settings the program reads from a file's text.
pub open spec fn ui_settings_of(text: Seq<char>) -> ConfigView {
    apply_ui_settings(ui_defaults(), ini_entries(text))
}

impl Config {
    fn apply(&mut self, e: &IniEntry)
        ensures
            final(self)@ == apply_ui_setting(old(self)@, entry_view(*e)),
    {
        let s = e.section.as_slice();
        let k = e.key.as_slice();
        let v = e.value.as_slice();
        if same(s, "ffmpeg") {
            if same(k, "path") {
                self.ffmpeg_path = string_of(v);
            } else if same(k, "debug") {
                self.debug = is_flag_on(v);
            }
        } else if same(s, "video") {
            if same(k, "codec") {
                self.codec = string_of(lowercase(v).as_slice());
            } else if same(k, "preset") {
                self.preset = string_of(v);
            } else if same(k, "crf") {
                self.crf = int_or(v, 18);
            } else if same(k, "bitrate") {
                self.bitrate = int_or(v, 0);
            } else if same(k, "rate_mode") {
                self.rate_mode = string_of(lowercase(v).as_slice());
            } else if same(k, "extra") {
                self.extra = string_of(v);
            } else if same(k, "container") {
                self.container = string_of(lowercase(v).as_slice());
            } else if same(k, "container_path") {
                self.container_path = string_of(v);
            } else if same(k, "alpha_format") {
                self.alpha_format = string_of(lowercase(v).as_slice());
            } else if same(k, "delete_avi") {
                self.delete_avi = is_flag_on(v);
            } else if same(k, "merge_audio") {
                self.merge_audio = is_flag_on(v);
            }
        }
    }
}

/// The settings the text of FFmpegEncoder.ini holds for the program.
pub fn parse_ui_config(text: &str) -> (r: Config)
    ensures
        r@ == ui_settings_of(text@),
{
    let es = read_entries(text);
    let mut cfg = Config::default();
    let mut i: usize = 0;
    while i < es.len()
        invariant
            i <= es.len(),
            cfg@ == apply_ui_settings(ui_defaults(), crate::ini::entry_views(es@).take(i as int)),
        decreases es.len() - i,
    {
        let ghost ev = crate::ini::entry_views(es@);
        assert(ev.take(i + 1).drop_last() =~= ev.take(i as int));
        cfg.apply(&es[i]);
        i = i + 1;
    }
    assert(crate::ini::entry_views(es@).take(i as int) =~= crate::ini::entry_views(es@));
    cfg
}

/// `1` or `0` for a switch.
pub open spec fn flag_text(b: bool) -> Seq<char> {
    if b { "1"@ } else { "0"@ }
}

/// The lines of the file the program writes.
pub open spec fn ui_lines(c: ConfigView) -> Seq<Seq<char>> {
    seq![
        "[ffmpeg]"@,
        "; ffmpeg.exe path (auto-filled on save)"@,
        "path="@ + c.ffmpeg_path,
        "; 1 = write debug log to %TEMP%\\MMDFfmpegEncoder\\ffmpeg_encoder_debug.log"@,
        "debug="@ + flag_text(c.debug),
        seq![],
        "[video]"@,
        "codec="@ + c.codec,
        "preset="@ + c.preset,
        "crf="@ + dec_int(c.crf as int),
        "bitrate="@ + dec_int(c.bitrate as int),
        "; crf = quality-first, vbr = dynamic bitrate"@,
        "rate_mode="@ + c.rate_mode,
        "extra="@ + c.extra,
        "; mp4 / mkv / mov / empty=AVI only"@,
        "container="@ + c.container,
        "container_path="@ + c.container_path,
        "; transparent output: empty / webm_vp9 / webm_av1 / mov_prores / mkv_ffv1"@,
        "alpha_format="@ + c.alpha_format,
        "delete_avi="@ + flag_text(c.delete_avi),
        "merge_audio="@ + flag_text(c.merge_audio),
    ]
}

/// Lines joined, each ended by a line feed.
pub open spec fn join_lines(ls: Seq<Seq<char>>) -> Seq<char>
    decreases ls.len(),
{
    if ls.len() == 0 {
        seq![]
    } else {
        join_lines(ls.drop_last()) + ls.last() + "\n"@
    }
}

/// The text of FFmpegEncoder.ini as the program writes it.
pub open spec fn ui_text(c: ConfigView) -> Seq<char> {
    join_lines(ui_lines(c))
}

fn append_line(text: &mut String, parts: &str, value: &str, Ghost(ls): Ghost<Seq<Seq<char>>>)
    requires
        old(text)@ == join_lines(ls),
    ensures
        final(text)@ == join_lines(ls.push(parts@ + value@)),
{
    append_text(text, parts);
    append_text(text, value);
    append_text(text, "\n");
    assert(ls.push(parts@ + value@).drop_last() =~= ls);
    assert(text@ =~= join_lines(ls) + (parts@ + value@) + "\n"@);
}

/// The text of FFmpegEncoder.ini for `cfg`.
#[verifier::spinoff_prover]
pub fn render_ui_config(cfg: &Config) -> (r: String)
    ensures
        r@ == ui_text(cfg@),
{
    let ghost ls = ui_lines(cfg@);
    proof {
        reveal_strlit("");
        assert(""@.len() == 0);
        assert(""@ + ""@ =~= Seq::<char>::empty());
    }
    let mut t = String::new();
    assert(t@ =~= join_lines(ls.take(0)));
    let debug = if cfg.debug { "1" } else { "0" };
    let delete_avi = if cfg.delete_avi { "1" } else { "0" };
    let merge_audio = if cfg.merge_audio { "1" } else { "0" };
    let crf = decimal(cfg.crf as i64);
    let bitrate = decimal(cfg.bitrate as i64);
    append_line(&mut t, "[ffmpeg]", "", Ghost(ls.take(0)));
    assert(ls.take(0).push("[ffmpeg]"@ + ""@) =~= ls.take(1));
    append_line(&mut t, "; ffmpeg.exe path (auto-filled on save)", "", Ghost(ls.take(1)));
    assert(ls.take(1).push("; ffmpeg.exe path (auto-filled on save)"@ + ""@) =~= ls.take(2));
    append_line(&mut t, "path=", cfg.ffmpeg_path.as_str(), Ghost(ls.take(2)));
    assert(ls.take(2).push("path="@ + cfg.ffmpeg_path@) =~= ls.take(3));
    append_line(
        &mut t,
        "; 1 = write debug log to %TEMP%\\MMDFfmpegEncoder\\ffmpeg_encoder_debug.log",
        "",
        Ghost(ls.take(3)),
    );
    assert(ls.take(3).push(
        "; 1 = write debug log to %TEMP%\\MMDFfmpegEncoder\\ffmpeg_encoder_debug.log"@ + ""@,
    ) =~= ls.take(4));
    append_line(&mut t, "debug=", debug, Ghost(ls.take(4)));
    assert(ls.take(4).push("debug="@ + debug@) =~= ls.take(5));
    append_line(&mut t, "", "", Ghost(ls.take(5)));
    assert(ls.take(5).push(""@ + ""@) =~= ls.take(6));
    append_line(&mut t, "[video]", "", Ghost(ls.take(6)));
    assert(ls.take(6).push("[video]"@ + ""@) =~= ls.take(7));
    append_line(&mut t, "codec=", cfg.codec.as_str(), Ghost(ls.take(7)));
    assert(ls.take(7).push("codec="@ + cfg.codec@) =~= ls.take(8));
    append_line(&mut t, "preset=", cfg.preset.as_str(), Ghost(ls.take(8)));
    assert(ls.take(8).push("preset="@ + cfg.preset@) =~= ls.take(9));
    append_line(&mut t, "crf=", crf.as_str(), Ghost(ls.take(9)));
    assert(ls.take(9).push("crf="@ + crf@) =~= ls.take(10));
    append_line(&mut t, "bitrate=", bitrate.as_str(), Ghost(ls.take(10)));
    assert(ls.take(10).push("bitrate="@ + bitrate@) =~= ls.take(11));
    append_line(&mut t, "; crf = quality-first, vbr = dynamic bitrate", "", Ghost(ls.take(11)));
    assert(ls.take(11).push("; crf = quality-first, vbr = dynamic bitrate"@ + ""@) =~= ls.take(12));
    append_line(&mut t, "rate_mode=", cfg.rate_mode.as_str(), Ghost(ls.take(12)));
    assert(ls.take(12).push("rate_mode="@ + cfg.rate_mode@) =~= ls.take(13));
    append_line(&mut t, "extra=", cfg.extra.as_str(), Ghost(ls.take(13)));
    assert(ls.take(13).push("extra="@ + cfg.extra@) =~= ls.take(14));
    append_line(&mut t, "; mp4 / mkv / mov / empty=AVI only", "", Ghost(ls.take(14)));
    assert(ls.take(14).push("; mp4 / mkv / mov / empty=AVI only"@ + ""@) =~= ls.take(15));
    append_line(&mut t, "container=", cfg.container.as_str(), Ghost(ls.take(15)));
    assert(ls.take(15).push("container="@ + cfg.container@) =~= ls.take(16));
    append_line(&mut t, "container_path=", cfg.container_path.as_str(), Ghost(ls.take(16)));
    assert(ls.take(16).push("container_path="@ + cfg.container_path@) =~= ls.take(17));
    append_line(
        &mut t,
        "; transparent output: empty / webm_vp9 / webm_av1 / mov_prores / mkv_ffv1",
        "",
        Ghost(ls.take(17)),
    );
    assert(ls.take(17).push(
        "; transparent output: empty / webm_vp9 / webm_av1 / mov_prores / mkv_ffv1"@ + ""@,
    ) =~= ls.take(18));
    append_line(&mut t, "alpha_format=", cfg.alpha_format.as_str(), Ghost(ls.take(18)));
    assert(ls.take(18).push("alpha_format="@ + cfg.alpha_format@) =~= ls.take(19));
    append_line(&mut t, "delete_avi=", delete_avi, Ghost(ls.take(19)));
    assert(ls.take(19).push("delete_avi="@ + delete_avi@) =~= ls.take(20));
    append_line(&mut t, "merge_audio=", merge_audio, Ghost(ls.take(20)));
    assert(ls.take(20).push("merge_audio="@ + merge_audio@) =~= ls.take(21));
    assert(ls.take(21) =~= ls);
    t
}


// ---------------------------------------------------------------------------
// Reading back what was written
// ---------------------------------------------------------------------------

/// Text that survives a line of the file unchanged: no line feed, no
/// surrounding white space.
pub open spec fn plain_text(v: Seq<char>) -> bool {
    trim(v) == v && forall|i: int| 0 <= i < v.len() ==> v[i] != '\n'
}

/// Settings the program writes in a form it reads back: every text plain,
/// and the lower-cased settings already in lower case.
pub open spec fn savable(c: ConfigView) -> bool {
    &&& plain_text(c.ffmpeg_path)
    &&& plain_text(c.codec) && lower_seq(c.codec) == c.codec
    &&& plain_text(c.preset)
    &&& plain_text(c.rate_mode) && lower_seq(c.rate_mode) == c.rate_mode
    &&& plain_text(c.extra)
    &&& plain_text(c.container) && lower_seq(c.container) == c.container
    &&& plain_text(c.container_path)
    &&& plain_text(c.alpha_format) && lower_seq(c.alpha_format) == c.alpha_format
}

proof fn lemma_trim_start_len(s: Seq<char>)
    ensures
        trim_start(s).len() <= s.len(),
        s.len() > 0 && is_ws(s[0]) ==> trim_start(s).len() < s.len(),
    decreases s.len(),
{
    if s.len() > 0 && is_ws(s[0]) {
        lemma_trim_start_len(s.drop_first());
    }
}

proof fn lemma_trim_end_len(s: Seq<char>)
    ensures
        trim_end(s).len() <= s.len(),
        s.len() > 0 && is_ws(s.last()) ==> trim_end(s).len() < s.len(),
    decreases s.len(),
{
    if s.len() > 0 && is_ws(s.last()) {
        lemma_trim_end_len(s.drop_last());
    }
}

/// Trimmed text begins and ends with a character other than white space.
proof fn lemma_trimmed_ends(v: Seq<char>)
    requires
        trim(v) == v,
        v.len() > 0,
    ensures
        !is_ws(v[0]),
        !is_ws(v.last()),
{
    lemma_trim_start_len(v);
    lemma_trim_end_len(trim_start(v));
    if !is_ws(v[0]) {
        assert(trim_start(v) == v);
        lemma_trim_end_len(v);
    }
}

proof fn lemma_trim_same(s: Seq<char>)
    requires
        s.len() > 0,
        !is_ws(s[0]),
        !is_ws(s.last()),
    ensures
        trim(s) == s,
{
    assert(trim_start(s) == s);
    assert(trim_end(s) == s);
}

/// A line and its line feed, read with `cur` before them, give one line.
proof fn lemma_lines_one(l: Seq<char>, cur: Seq<char>)
    requires
        forall|i: int| 0 <= i < l.len() ==> l[i] != '\n',
    ensures
        lines_from(l + "\n"@, cur) == seq![strip_cr(cur + l)],
    decreases l.len(),
{
    reveal_strlit("\n");
    let t = l + "\n"@;
    if l.len() == 0 {
        assert(t =~= seq!['\n']);
        assert(t.drop_first() =~= Seq::<char>::empty());
        assert(cur + l =~= cur);
        assert(lines_from(Seq::<char>::empty(), seq![]) =~= Seq::<Seq<char>>::empty());
        assert(lines_from(t, cur) == seq![strip_cr(cur)] + lines_from(t.drop_first(), seq![]));
        assert(seq![strip_cr(cur)] + Seq::<Seq<char>>::empty() =~= seq![strip_cr(cur)]);
    } else {
        assert(t[0] == l[0]);
        assert(l[0] != '\n');
        assert(t.drop_first() =~= l.drop_first() + "\n"@);
        lemma_lines_one(l.drop_first(), cur.push(l[0]));
        assert(cur.push(l[0]) + l.drop_first() =~= cur + l);
    }
}

/// Lines that end with a line feed, followed by more text.
proof fn lemma_lines_split(a: Seq<char>, b: Seq<char>, cur: Seq<char>)
    requires
        a.len() > 0,
        a.last() == '\n',
    ensures
        lines_from(a + b, cur) == lines_from(a, cur) + lines_from(b, seq![]),
    decreases a.len(),
{
    let t = a + b;
    assert(t[0] == a[0]);
    assert(t.drop_first() =~= a.drop_first() + b);
    if a.len() == 1 {
        assert(a.drop_first() =~= Seq::<char>::empty());
        assert(a.drop_first() + b =~= b);
        assert(lines_from(a, cur) =~= seq![strip_cr(cur)] + Seq::<Seq<char>>::empty());
    } else {
        lemma_lines_split(a.drop_first(), b, if a[0] == '\n' { seq![] } else { cur.push(a[0]) });
        if a[0] == '\n' {
            assert(seq![strip_cr(cur)] + (lines_from(a.drop_first(), seq![]) + lines_from(b, seq![]))
                =~= (seq![strip_cr(cur)] + lines_from(a.drop_first(), seq![])) + lines_from(b, seq![]));
        }
    }
}

/// The lines of joined lines are the lines.
proof fn lemma_lines_join(ls: Seq<Seq<char>>)
    requires
        forall|k: int, i: int| 0 <= k < ls.len() && 0 <= i < ls[k].len() ==> ls[k][i] != '\n',
    ensures
        lines(join_lines(ls)) == ls.map_values(|l: Seq<char>| strip_cr(l)),
    decreases ls.len(),
{
    reveal_strlit("\n");
    if ls.len() == 0 {
        assert(lines(Seq::<char>::empty()) =~= Seq::<Seq<char>>::empty());
        assert(ls.map_values(|l: Seq<char>| strip_cr(l)) =~= Seq::<Seq<char>>::empty());
    } else {
        let init = ls.drop_last();
        let l = ls.last();
        assert forall|i: int| 0 <= i < l.len() implies l[i] != '\n' by {
            assert(ls[ls.len() - 1][i] != '\n');
        }
        lemma_lines_join(init);
        lemma_lines_one(l, seq![]);
        assert(Seq::<char>::empty() + l =~= l);
        let j = join_lines(init);
        assert(join_lines(ls) =~= j + (l + "\n"@));
        if init.len() == 0 {
            assert(j =~= Seq::<char>::empty());
            assert(j + (l + "\n"@) =~= l + "\n"@);
        } else {
            assert(j.last() == '\n');
            lemma_lines_split(j, l + "\n"@, seq![]);
        }
        assert(ls.map_values(|l: Seq<char>| strip_cr(l)) =~= init.map_values(|l: Seq<char>| strip_cr(l)).push(strip_cr(l)));
    }
}

/// Key characters: lower-case letters and underscores.
pub open spec fn key_char(c: char) -> bool {
    ('a' <= c && c <= 'z') || c == '_'
}

/// A setting line `key=value` is read as that setting.
proof fn lemma_setting_line(
    st: (Seq<(Seq<char>, Seq<char>, Seq<char>)>, Seq<char>),
    p: Seq<char>,
    v: Seq<char>,
)
    requires
        p.len() >= 2,
        p.last() == '=',
        forall|i: int| 0 <= i < p.len() - 1 ==> key_char(#[trigger] p[i]),
        trim(v) == v,
    ensures
        ini_step(st, p + v) == (st.0.push((st.1, p.drop_last(), v)), st.1),
{
    reveal(ini_step);
    let l = p + v;
    let n = p.len() - 1;
    assert(l[0] == p[0]);
    assert(key_char(p[0]));
    if v.len() > 0 {
        lemma_trimmed_ends(v);
        assert(l.last() == v.last());
    } else {
        assert(l =~= p);
    }
    lemma_trim_same(l);
    assert(l[n] == '=');
    assert(exists|i: int| 0 <= i < l.len() && l[i] == '=');
    let k = choose|i: int| 0 <= i < l.len() && l[i] == '=' && forall|j: int| 0 <= j < i ==> l[j] != '=';
    assert(k == n) by {
        if k < n {
            assert(key_char(p[k]));
        } else if k > n {
            assert(l[n] == '=');
        }
    }
    assert(first_index_of(l, '=') == Some(n));
    let key = p.drop_last();
    assert(l.take(n) =~= key);
    assert(key[0] == p[0]);
    assert(key.last() == p[n - 1]);
    assert(key_char(p[n - 1]));
    lemma_trim_same(key);
    assert(lower_seq(key) =~= key) by {
        assert forall|i: int| 0 <= i < key.len() implies lower(key[i]) == key[i] by {
            assert(key_char(p[i]));
        }
    }
    assert(l.skip(n + 1) =~= v);
}

/// A line that begins with `;` is a comment.
proof fn lemma_comment_line(st: (Seq<(Seq<char>, Seq<char>, Seq<char>)>, Seq<char>), l: Seq<char>)
    requires
        l.len() > 0,
        l[0] == ';',
        !is_ws(l.last()),
    ensures
        ini_step(st, l) == st,
{
    reveal(ini_step);
    lemma_trim_same(l);
}

/// A `[name]` line opens the section `name`.
proof fn lemma_section_line(
    st: (Seq<(Seq<char>, Seq<char>, Seq<char>)>, Seq<char>),
    l: Seq<char>,
    name: Seq<char>,
)
    requires
        l == seq!['['] + name + seq![']'],
        name.len() > 0,
        forall|i: int| 0 <= i < name.len() ==> key_char(#[trigger] name[i]),
    ensures
        ini_step(st, l) == (st.0, name),
{
    reveal(ini_step);
    lemma_trim_same(l);
    assert(l.subrange(1, l.len() - 1) =~= name);
    assert(key_char(name[0]));
    assert(key_char(name.last()));
    lemma_trim_same(name);
    assert(lower_seq(name) =~= name) by {
        assert forall|i: int| 0 <= i < name.len() implies lower(name[i]) == name[i] by {
            assert(key_char(name[i]));
        }
    }
}

proof fn lemma_flag_text(b: bool)
    ensures
        flag_value(flag_text(b)) == b,
        trim(flag_text(b)) == flag_text(b),
{
    reveal_strlit("1");
    reveal_strlit("0");
    reveal_strlit("true");
    let t = flag_text(b);
    lemma_trim_same(t);
    if !b {
        assert(lower_seq(t).len() == 1);
        assert(lower_seq("true"@).len() == 4);
        assert(t != "1"@);
    }
}

proof fn lemma_dec_plain(x: i32)
    ensures
        trim(dec_int(x as int)) == dec_int(x as int),
        number_or(dec_int(x as int), 0) == x,
        number_or(dec_int(x as int), 18) == x,
{
    lemma_parse_dec_i32(x);
    let s = dec_int(x as int);
    if x < 0 {
        let d = crate::text::dec_nat((-x) as nat);
        lemma_dec_nat((-x) as nat);
        assert(s[0] == '-');
        assert(s.last() == d[d.len() - 1]);
        assert(crate::text::is_digit(d[d.len() - 1]));
    } else {
        let d = crate::text::dec_nat(x as nat);
        lemma_dec_nat(x as nat);
        assert(crate::text::is_digit(d[0]));
        assert(crate::text::is_digit(d[d.len() - 1]));
    }
    lemma_trim_same(s);
}


/// The settings the program writes, in order.
pub open spec fn ui_entries(c: ConfigView) -> Seq<(Seq<char>, Seq<char>, Seq<char>)> {
    seq![
        ("ffmpeg"@, "path"@, c.ffmpeg_path),
        ("ffmpeg"@, "debug"@, flag_text(c.debug)),
        ("video"@, "codec"@, c.codec),
        ("video"@, "preset"@, c.preset),
        ("video"@, "crf"@, dec_int(c.crf as int)),
        ("video"@, "bitrate"@, dec_int(c.bitrate as int)),
        ("video"@, "rate_mode"@, c.rate_mode),
        ("video"@, "extra"@, c.extra),
        ("video"@, "container"@, c.container),
        ("video"@, "container_path"@, c.container_path),
        ("video"@, "alpha_format"@, c.alpha_format),
        ("video"@, "delete_avi"@, flag_text(c.delete_avi)),
        ("video"@, "merge_audio"@, flag_text(c.merge_audio)),
    ]
}

proof fn lemma_dec_digits(x: i32)
    ensures
        forall|i: int| 0 <= i < dec_int(x as int).len() ==> dec_int(x as int)[i] != '\n',
{
    let s = dec_int(x as int);
    if x < 0 {
        let d = crate::text::dec_nat((-x) as nat);
        lemma_dec_nat((-x) as nat);
        assert forall|i: int| 0 <= i < s.len() implies s[i] != '\n' by {
            if i > 0 {
                assert(s[i] == d[i - 1]);
                assert(crate::text::is_digit(d[i - 1]));
            }
        }
    } else {
        let d = crate::text::dec_nat(x as nat);
        lemma_dec_nat(x as nat);
        assert forall|i: int| 0 <= i < s.len() implies s[i] != '\n' by {
            assert(crate::text::is_digit(d[i]));
        }
    }
}

proof fn lemma_flag_no_nl(b: bool)
    ensures
        forall|i: int| 0 <= i < flag_text(b).len() ==> flag_text(b)[i] != '\n',
{
    reveal_strlit("1");
    reveal_strlit("0");
}

proof fn lemma_literal_line(l: Seq<char>)
    requires
        l.len() > 0,
        !is_ws(l.last()),
        forall|i: int| 0 <= i < l.len() ==> l[i] != '\n',
    ensures
        strip_cr(l) == l,
{
}

proof fn lemma_plain_line(p: Seq<char>, v: Seq<char>)
    requires
        p.len() > 0,
        p.last() == '=',
        forall|i: int| 0 <= i < p.len() ==> p[i] != '\n',
        trim(v) == v,
        forall|i: int| 0 <= i < v.len() ==> v[i] != '\n',
    ensures
        strip_cr(p + v) == p + v,
        forall|i: int| 0 <= i < (p + v).len() ==> (p + v)[i] != '\n',
{
    if v.len() > 0 {
        lemma_trimmed_ends(v);
        assert((p + v).last() == v.last());
    } else {
        assert(p + v =~= p);
    }
    assert forall|i: int| 0 <= i < (p + v).len() implies (p + v)[i] != '\n' by {
        if i < p.len() {
            assert((p + v)[i] == p[i]);
        } else {
            assert((p + v)[i] == v[i - p.len()]);
        }
    }
}

/// The lines of the written text are the lines written.
#[verifier::rlimit(60)]
proof fn lemma_ui_text_lines(c: ConfigView)
    requires
        savable(c),
    ensures
        lines(ui_text(c)) == ui_lines(c),
{
    reveal_strlit("; 1 = write debug log to %TEMP%\\MMDFfmpegEncoder\\ffmpeg_encoder_debug.log");
    reveal_strlit("; crf = quality-first, vbr = dynamic bitrate");
    reveal_strlit("; ffmpeg.exe path (auto-filled on save)");
    reveal_strlit("; mp4 / mkv / mov / empty=AVI only");
    reveal_strlit("; transparent output: empty / webm_vp9 / webm_av1 / mov_prores / mkv_ffv1");
    reveal_strlit("[ffmpeg]");
    reveal_strlit("[video]");
    reveal_strlit("alpha_format");
    reveal_strlit("alpha_format=");
    reveal_strlit("bitrate");
    reveal_strlit("bitrate=");
    reveal_strlit("codec");
    reveal_strlit("codec=");
    reveal_strlit("container");
    reveal_strlit("container=");
    reveal_strlit("container_path");
    reveal_strlit("container_path=");
    reveal_strlit("crf");
    reveal_strlit("crf=");
    reveal_strlit("debug");
    reveal_strlit("debug=");
    reveal_strlit("delete_avi");
    reveal_strlit("delete_avi=");
    reveal_strlit("extra");
    reveal_strlit("extra=");
    reveal_strlit("ffmpeg");
    reveal_strlit("merge_audio");
    reveal_strlit("merge_audio=");
    reveal_strlit("path");
    reveal_strlit("path=");
    reveal_strlit("preset");
    reveal_strlit("preset=");
    reveal_strlit("rate_mode");
    reveal_strlit("rate_mode=");
    reveal_strlit("video");
    lemma_flag_text(c.debug);
    lemma_flag_text(c.delete_avi);
    lemma_flag_text(c.merge_audio);
    lemma_dec_plain(c.crf);
    lemma_dec_plain(c.bitrate);
    lemma_dec_digits(c.crf);
    lemma_dec_digits(c.bitrate);
    lemma_flag_no_nl(c.debug);
    lemma_flag_no_nl(c.delete_avi);
    lemma_flag_no_nl(c.merge_audio);
    lemma_literal_line("[ffmpeg]"@);
    lemma_literal_line("; ffmpeg.exe path (auto-filled on save)"@);
    lemma_plain_line("path="@, c.ffmpeg_path);
    lemma_literal_line("; 1 = write debug log to %TEMP%\\MMDFfmpegEncoder\\ffmpeg_encoder_debug.log"@);
    lemma_plain_line("debug="@, flag_text(c.debug));
    lemma_literal_line("[video]"@);
    lemma_plain_line("codec="@, c.codec);
    lemma_plain_line("preset="@, c.preset);
    lemma_plain_line("crf="@, dec_int(c.crf as int));
    lemma_plain_line("bitrate="@, dec_int(c.bitrate as int));
    lemma_literal_line("; crf = quality-first, vbr = dynamic bitrate"@);
    lemma_plain_line("rate_mode="@, c.rate_mode);
    lemma_plain_line("extra="@, c.extra);
    lemma_literal_line("; mp4 / mkv / mov / empty=AVI only"@);
    lemma_plain_line("container="@, c.container);
    lemma_plain_line("container_path="@, c.container_path);
    lemma_literal_line("; transparent output: empty / webm_vp9 / webm_av1 / mov_prores / mkv_ffv1"@);
    lemma_plain_line("alpha_format="@, c.alpha_format);
    lemma_plain_line("delete_avi="@, flag_text(c.delete_avi));
    lemma_plain_line("merge_audio="@, flag_text(c.merge_audio));
    let ls = ui_lines(c);
    assert forall|k: int, i: int| 0 <= k < ls.len() && 0 <= i < ls[k].len() implies ls[k][i] != '\n' by {
        assert(ls[k] == ui_lines(c)[k]);
    }
    lemma_lines_join(ls);
    assert(ls.map_values(|l: Seq<char>| strip_cr(l)) =~= ls) by {
        assert(strip_cr(Seq::<char>::empty()) == Seq::<char>::empty());
    }
}




proof fn lemma_scan_push(ls: Seq<Seq<char>>, x: Seq<char>)
    ensures
        ini_scan(ls.push(x)) == ini_step(ini_scan(ls), x),
{
    assert(ls.push(x).drop_last() =~= ls);
}

proof fn lemma_empty_line(st: (Seq<(Seq<char>, Seq<char>, Seq<char>)>, Seq<char>))
    ensures
        ini_step(st, seq![]) == st,
{
    reveal(ini_step);
    assert(trim(Seq::<char>::empty()) =~= Seq::<char>::empty());
}


proof fn lemma_ui_line_0(c: ConfigView)
    requires
        savable(c),
    ensures
        ini_scan(ui_lines(c).take(1)) == (ui_entries(c).take(0), "ffmpeg"@),
{
    reveal_strlit("[ffmpeg]");
    reveal_strlit("ffmpeg");
    let ls = ui_lines(c);
    let es = ui_entries(c);
    assert(ls.take(0) =~= Seq::<Seq<char>>::empty());
    assert(es.take(0) =~= Seq::<(Seq<char>, Seq<char>, Seq<char>)>::empty());
    reveal_with_fuel(ini_scan, 1);
    assert(ls.take(1) =~= ls.take(0).push(ls[0]));
    lemma_scan_push(ls.take(0), ls[0]);
    assert("[ffmpeg]"@ =~= seq!['['] + "ffmpeg"@ + seq![']']);
    lemma_section_line(ini_scan(ls.take(0)), ls[0], "ffmpeg"@);
}

proof fn lemma_ui_line_1(c: ConfigView)
    requires
        savable(c),
        ini_scan(ui_lines(c).take(1)) == (ui_entries(c).take(0), "ffmpeg"@),
    ensures
        ini_scan(ui_lines(c).take(2)) == (ui_entries(c).take(0), "ffmpeg"@),
{
    reveal_strlit("; ffmpeg.exe path (auto-filled on save)");
    let ls = ui_lines(c);
    let es = ui_entries(c);

    assert(ls.take(2) =~= ls.take(1).push(ls[1]));
    lemma_scan_push(ls.take(1), ls[1]);
    lemma_comment_line(ini_scan(ls.take(1)), ls[1]);
}

proof fn lemma_ui_line_2(c: ConfigView)
    requires
        savable(c),
        ini_scan(ui_lines(c).take(2)) == (ui_entries(c).take(0), "ffmpeg"@),
    ensures
        ini_scan(ui_lines(c).take(3)) == (ui_entries(c).take(1), "ffmpeg"@),
{
    reveal_strlit("path");
    reveal_strlit("path=");
    let ls = ui_lines(c);
    let es = ui_entries(c);

    assert(ls.take(3) =~= ls.take(2).push(ls[2]));
    lemma_scan_push(ls.take(2), ls[2]);
    lemma_setting_line(ini_scan(ls.take(2)), "path="@, c.ffmpeg_path);
    assert("path="@.drop_last() =~= "path"@);
    assert(es.take(1) =~= es.take(0).push(es[0]));
}

proof fn lemma_ui_line_3(c: ConfigView)
    requires
        savable(c),
        ini_scan(ui_lines(c).take(3)) == (ui_entries(c).take(1), "ffmpeg"@),
    ensures
        ini_scan(ui_lines(c).take(4)) == (ui_entries(c).take(1), "ffmpeg"@),
{
    reveal_strlit("; 1 = write debug log to %TEMP%\\MMDFfmpegEncoder\\ffmpeg_encoder_debug.log");
    let ls = ui_lines(c);
    let es = ui_entries(c);

    assert(ls.take(4) =~= ls.take(3).push(ls[3]));
    lemma_scan_push(ls.take(3), ls[3]);
    lemma_comment_line(ini_scan(ls.take(3)), ls[3]);
}

proof fn lemma_ui_line_4(c: ConfigView)
    requires
        savable(c),
        ini_scan(ui_lines(c).take(4)) == (ui_entries(c).take(1), "ffmpeg"@),
    ensures
        ini_scan(ui_lines(c).take(5)) == (ui_entries(c).take(2), "ffmpeg"@),
{
    reveal_strlit("debug");
    reveal_strlit("debug=");
    lemma_flag_text(c.debug);
    let ls = ui_lines(c);
    let es = ui_entries(c);

    assert(ls.take(5) =~= ls.take(4).push(ls[4]));
    lemma_scan_push(ls.take(4), ls[4]);
    lemma_setting_line(ini_scan(ls.take(4)), "debug="@, flag_text(c.debug));
    assert("debug="@.drop_last() =~= "debug"@);
    assert(es.take(2) =~= es.take(1).push(es[1]));
}

proof fn lemma_ui_line_5(c: ConfigView)
    requires
        savable(c),
        ini_scan(ui_lines(c).take(5)) == (ui_entries(c).take(2), "ffmpeg"@),
    ensures
        ini_scan(ui_lines(c).take(6)) == (ui_entries(c).take(2), "ffmpeg"@),
{

    let ls = ui_lines(c);
    let es = ui_entries(c);

    assert(ls.take(6) =~= ls.take(5).push(ls[5]));
    lemma_scan_push(ls.take(5), ls[5]);
    lemma_empty_line(ini_scan(ls.take(5)));
}

proof fn lemma_ui_line_6(c: ConfigView)
    requires
        savable(c),
        ini_scan(ui_lines(c).take(6)) == (ui_entries(c).take(2), "ffmpeg"@),
    ensures
        ini_scan(ui_lines(c).take(7)) == (ui_entries(c).take(2), "video"@),
{
    reveal_strlit("[video]");
    reveal_strlit("video");
    let ls = ui_lines(c);
    let es = ui_entries(c);

    assert(ls.take(7) =~= ls.take(6).push(ls[6]));
    lemma_scan_push(ls.take(6), ls[6]);
    assert("[video]"@ =~= seq!['['] + "video"@ + seq![']']);
    lemma_section_line(ini_scan(ls.take(6)), ls[6], "video"@);
}

proof fn lemma_ui_line_7(c: ConfigView)
    requires
        savable(c),
        ini_scan(ui_lines(c).take(7)) == (ui_entries(c).take(2), "video"@),
    ensures
        ini_scan(ui_lines(c).take(8)) == (ui_entries(c).take(3), "video"@),
{
    reveal_strlit("codec");
    reveal_strlit("codec=");
    let ls = ui_lines(c);
    let es = ui_entries(c);

    assert(ls.take(8) =~= ls.take(7).push(ls[7]));
    lemma_scan_push(ls.take(7), ls[7]);
    lemma_setting_line(ini_scan(ls.take(7)), "codec="@, c.codec);
    assert("codec="@.drop_last() =~= "codec"@);
    assert(es.take(3) =~= es.take(2).push(es[2]));
}

proof fn lemma_ui_line_8(c: ConfigView)
    requires
        savable(c),
        ini_scan(ui_lines(c).take(8)) == (ui_entries(c).take(3), "video"@),
    ensures
        ini_scan(ui_lines(c).take(9)) == (ui_entries(c).take(4), "video"@),
{
    reveal_strlit("preset");
    reveal_strlit("preset=");
    let ls = ui_lines(c);
    let es = ui_entries(c);

    assert(ls.take(9) =~= ls.take(8).push(ls[8]));
    lemma_scan_push(ls.take(8), ls[8]);
    lemma_setting_line(ini_scan(ls.take(8)), "preset="@, c.preset);
    assert("preset="@.drop_last() =~= "preset"@);
    assert(es.take(4) =~= es.take(3).push(es[3]));
}

proof fn lemma_ui_line_9(c: ConfigView)
    requires
        savable(c),
        ini_scan(ui_lines(c).take(9)) == (ui_entries(c).take(4), "video"@),
    ensures
        ini_scan(ui_lines(c).take(10)) == (ui_entries(c).take(5), "video"@),
{
    reveal_strlit("crf");
    reveal_strlit("crf=");
    lemma_dec_plain(c.crf);
    let ls = ui_lines(c);
    let es = ui_entries(c);

    assert(ls.take(10) =~= ls.take(9).push(ls[9]));
    lemma_scan_push(ls.take(9), ls[9]);
    lemma_setting_line(ini_scan(ls.take(9)), "crf="@, dec_int(c.crf as int));
    assert("crf="@.drop_last() =~= "crf"@);
    assert(es.take(5) =~= es.take(4).push(es[4]));
}

proof fn lemma_ui_line_10(c: ConfigView)
    requires
        savable(c),
        ini_scan(ui_lines(c).take(10)) == (ui_entries(c).take(5), "video"@),
    ensures
        ini_scan(ui_lines(c).take(11)) == (ui_entries(c).take(6), "video"@),
{
    reveal_strlit("bitrate");
    reveal_strlit("bitrate=");
    lemma_dec_plain(c.bitrate);
    let ls = ui_lines(c);
    let es = ui_entries(c);

    assert(ls.take(11) =~= ls.take(10).push(ls[10]));
    lemma_scan_push(ls.take(10), ls[10]);
    lemma_setting_line(ini_scan(ls.take(10)), "bitrate="@, dec_int(c.bitrate as int));
    assert("bitrate="@.drop_last() =~= "bitrate"@);
    assert(es.take(6) =~= es.take(5).push(es[5]));
}

proof fn lemma_ui_line_11(c: ConfigView)
    requires
        savable(c),
        ini_scan(ui_lines(c).take(11)) == (ui_entries(c).take(6), "video"@),
    ensures
        ini_scan(ui_lines(c).take(12)) == (ui_entries(c).take(6), "video"@),
{
    reveal_strlit("; crf = quality-first, vbr = dynamic bitrate");
    let ls = ui_lines(c);
    let es = ui_entries(c);

    assert(ls.take(12) =~= ls.take(11).push(ls[11]));
    lemma_scan_push(ls.take(11), ls[11]);
    lemma_comment_line(ini_scan(ls.take(11)), ls[11]);
}

proof fn lemma_ui_line_12(c: ConfigView)
    requires
        savable(c),
        ini_scan(ui_lines(c).take(12)) == (ui_entries(c).take(6), "video"@),
    ensures
        ini_scan(ui_lines(c).take(13)) == (ui_entries(c).take(7), "video"@),
{
    reveal_strlit("rate_mode");
    reveal_strlit("rate_mode=");
    let ls = ui_lines(c);
    let es = ui_entries(c);

    assert(ls.take(13) =~= ls.take(12).push(ls[12]));
    lemma_scan_push(ls.take(12), ls[12]);
    lemma_setting_line(ini_scan(ls.take(12)), "rate_mode="@, c.rate_mode);
    assert("rate_mode="@.drop_last() =~= "rate_mode"@);
    assert(es.take(7) =~= es.take(6).push(es[6]));
}

proof fn lemma_ui_line_13(c: ConfigView)
    requires
        savable(c),
        ini_scan(ui_lines(c).take(13)) == (ui_entries(c).take(7), "video"@),
    ensures
        ini_scan(ui_lines(c).take(14)) == (ui_entries(c).take(8), "video"@),
{
    reveal_strlit("extra");
    reveal_strlit("extra=");
    let ls = ui_lines(c);
    let es = ui_entries(c);

    assert(ls.take(14) =~= ls.take(13).push(ls[13]));
    lemma_scan_push(ls.take(13), ls[13]);
    lemma_setting_line(ini_scan(ls.take(13)), "extra="@, c.extra);
    assert("extra="@.drop_last() =~= "extra"@);
    assert(es.take(8) =~= es.take(7).push(es[7]));
}

proof fn lemma_ui_line_14(c: ConfigView)
    requires
        savable(c),
        ini_scan(ui_lines(c).take(14)) == (ui_entries(c).take(8), "video"@),
    ensures
        ini_scan(ui_lines(c).take(15)) == (ui_entries(c).take(8), "video"@),
{
    reveal_strlit("; mp4 / mkv / mov / empty=AVI only");
    let ls = ui_lines(c);
    let es = ui_entries(c);

    assert(ls.take(15) =~= ls.take(14).push(ls[14]));
    lemma_scan_push(ls.take(14), ls[14]);
    lemma_comment_line(ini_scan(ls.take(14)), ls[14]);
}

proof fn lemma_ui_line_15(c: ConfigView)
    requires
        savable(c),
        ini_scan(ui_lines(c).take(15)) == (ui_entries(c).take(8), "video"@),
    ensures
        ini_scan(ui_lines(c).take(16)) == (ui_entries(c).take(9), "video"@),
{
    reveal_strlit("container");
    reveal_strlit("container=");
    let ls = ui_lines(c);
    let es = ui_entries(c);

    assert(ls.take(16) =~= ls.take(15).push(ls[15]));
    lemma_scan_push(ls.take(15), ls[15]);
    lemma_setting_line(ini_scan(ls.take(15)), "container="@, c.container);
    assert("container="@.drop_last() =~= "container"@);
    assert(es.take(9) =~= es.take(8).push(es[8]));
}

proof fn lemma_ui_line_16(c: ConfigView)
    requires
        savable(c),
        ini_scan(ui_lines(c).take(16)) == (ui_entries(c).take(9), "video"@),
    ensures
        ini_scan(ui_lines(c).take(17)) == (ui_entries(c).take(10), "video"@),
{
    reveal_strlit("container_path");
    reveal_strlit("container_path=");
    let ls = ui_lines(c);
    let es = ui_entries(c);

    assert(ls.take(17) =~= ls.take(16).push(ls[16]));
    lemma_scan_push(ls.take(16), ls[16]);
    lemma_setting_line(ini_scan(ls.take(16)), "container_path="@, c.container_path);
    assert("container_path="@.drop_last() =~= "container_path"@);
    assert(es.take(10) =~= es.take(9).push(es[9]));
}

proof fn lemma_ui_line_17(c: ConfigView)
    requires
        savable(c),
        ini_scan(ui_lines(c).take(17)) == (ui_entries(c).take(10), "video"@),
    ensures
        ini_scan(ui_lines(c).take(18)) == (ui_entries(c).take(10), "video"@),
{
    reveal_strlit("; transparent output: empty / webm_vp9 / webm_av1 / mov_prores / mkv_ffv1");
    let ls = ui_lines(c);
    let es = ui_entries(c);

    assert(ls.take(18) =~= ls.take(17).push(ls[17]));
    lemma_scan_push(ls.take(17), ls[17]);
    lemma_comment_line(ini_scan(ls.take(17)), ls[17]);
}

proof fn lemma_ui_line_18(c: ConfigView)
    requires
        savable(c),
        ini_scan(ui_lines(c).take(18)) == (ui_entries(c).take(10), "video"@),
    ensures
        ini_scan(ui_lines(c).take(19)) == (ui_entries(c).take(11), "video"@),
{
    reveal_strlit("alpha_format");
    reveal_strlit("alpha_format=");
    let ls = ui_lines(c);
    let es = ui_entries(c);

    assert(ls.take(19) =~= ls.take(18).push(ls[18]));
    lemma_scan_push(ls.take(18), ls[18]);
    lemma_setting_line(ini_scan(ls.take(18)), "alpha_format="@, c.alpha_format);
    assert("alpha_format="@.drop_last() =~= "alpha_format"@);
    assert(es.take(11) =~= es.take(10).push(es[10]));
}

proof fn lemma_ui_line_19(c: ConfigView)
    requires
        savable(c),
        ini_scan(ui_lines(c).take(19)) == (ui_entries(c).take(11), "video"@),
    ensures
        ini_scan(ui_lines(c).take(20)) == (ui_entries(c).take(12), "video"@),
{
    reveal_strlit("delete_avi");
    reveal_strlit("delete_avi=");
    lemma_flag_text(c.delete_avi);
    let ls = ui_lines(c);
    let es = ui_entries(c);

    assert(ls.take(20) =~= ls.take(19).push(ls[19]));
    lemma_scan_push(ls.take(19), ls[19]);
    lemma_setting_line(ini_scan(ls.take(19)), "delete_avi="@, flag_text(c.delete_avi));
    assert("delete_avi="@.drop_last() =~= "delete_avi"@);
    assert(es.take(12) =~= es.take(11).push(es[11]));
}

proof fn lemma_ui_line_20(c: ConfigView)
    requires
        savable(c),
        ini_scan(ui_lines(c).take(20)) == (ui_entries(c).take(12), "video"@),
    ensures
        ini_scan(ui_lines(c).take(21)) == (ui_entries(c).take(13), "video"@),
{
    reveal_strlit("merge_audio");
    reveal_strlit("merge_audio=");
    lemma_flag_text(c.merge_audio);
    let ls = ui_lines(c);
    let es = ui_entries(c);

    assert(ls.take(21) =~= ls.take(20).push(ls[20]));
    lemma_scan_push(ls.take(20), ls[20]);
    lemma_setting_line(ini_scan(ls.take(20)), "merge_audio="@, flag_text(c.merge_audio));
    assert("merge_audio="@.drop_last() =~= "merge_audio"@);
    assert(es.take(13) =~= es.take(12).push(es[12]));
}

/// The settings read from the written lines are the settings written.
proof fn lemma_ui_lines_entries(c: ConfigView)
    requires
        savable(c),
    ensures
        ini_scan(ui_lines(c)).0 == ui_entries(c),
{
    lemma_ui_line_0(c);
    lemma_ui_line_1(c);
    lemma_ui_line_2(c);
    lemma_ui_line_3(c);
    lemma_ui_line_4(c);
    lemma_ui_line_5(c);
    lemma_ui_line_6(c);
    lemma_ui_line_7(c);
    lemma_ui_line_8(c);
    lemma_ui_line_9(c);
    lemma_ui_line_10(c);
    lemma_ui_line_11(c);
    lemma_ui_line_12(c);
    lemma_ui_line_13(c);
    lemma_ui_line_14(c);
    lemma_ui_line_15(c);
    lemma_ui_line_16(c);
    lemma_ui_line_17(c);
    lemma_ui_line_18(c);
    lemma_ui_line_19(c);
    lemma_ui_line_20(c);
    assert(ui_lines(c).take(21) =~= ui_lines(c));
    assert(ui_entries(c).take(13) =~= ui_entries(c));
}


proof fn lemma_ui_apply_0(c: ConfigView)
    requires
        savable(c),
    ensures
        apply_ui_settings(ui_defaults(), ui_entries(c).take(1)) == (ConfigView {
            ffmpeg_path: c.ffmpeg_path,
            ..apply_ui_settings(ui_defaults(), ui_entries(c).take(0))
        }),
{
    reveal_strlit("path");
    reveal_strlit("debug");
    reveal_strlit("codec");
    reveal_strlit("preset");
    reveal_strlit("crf");
    reveal_strlit("bitrate");
    reveal_strlit("rate_mode");
    reveal_strlit("extra");
    reveal_strlit("container");
    reveal_strlit("container_path");
    reveal_strlit("alpha_format");
    reveal_strlit("delete_avi");
    reveal_strlit("merge_audio");
    reveal_strlit("ffmpeg");
    reveal_strlit("video");
    let es = ui_entries(c);

    assert(es.take(1).drop_last() =~= es.take(0));
}

proof fn lemma_ui_apply_1(c: ConfigView)
    requires
        savable(c),
    ensures
        apply_ui_settings(ui_defaults(), ui_entries(c).take(2)) == (ConfigView {
            debug: c.debug,
            ..apply_ui_settings(ui_defaults(), ui_entries(c).take(1))
        }),
{
    reveal_strlit("path");
    reveal_strlit("debug");
    reveal_strlit("codec");
    reveal_strlit("preset");
    reveal_strlit("crf");
    reveal_strlit("bitrate");
    reveal_strlit("rate_mode");
    reveal_strlit("extra");
    reveal_strlit("container");
    reveal_strlit("container_path");
    reveal_strlit("alpha_format");
    reveal_strlit("delete_avi");
    reveal_strlit("merge_audio");
    reveal_strlit("ffmpeg");
    reveal_strlit("video");
    lemma_flag_text(c.debug);
    let es = ui_entries(c);
    assert("debug"@.len() != "path"@.len());
    assert(es.take(2).drop_last() =~= es.take(1));
}

proof fn lemma_ui_apply_2(c: ConfigView)
    requires
        savable(c),
    ensures
        apply_ui_settings(ui_defaults(), ui_entries(c).take(3)) == (ConfigView {
            codec: c.codec,
            ..apply_ui_settings(ui_defaults(), ui_entries(c).take(2))
        }),
{
    reveal_strlit("path");
    reveal_strlit("debug");
    reveal_strlit("codec");
    reveal_strlit("preset");
    reveal_strlit("crf");
    reveal_strlit("bitrate");
    reveal_strlit("rate_mode");
    reveal_strlit("extra");
    reveal_strlit("container");
    reveal_strlit("container_path");
    reveal_strlit("alpha_format");
    reveal_strlit("delete_avi");
    reveal_strlit("merge_audio");
    reveal_strlit("ffmpeg");
    reveal_strlit("video");
    let es = ui_entries(c);
    assert("video"@.len() != "ffmpeg"@.len());
    assert(es.take(3).drop_last() =~= es.take(2));
}

proof fn lemma_ui_apply_3(c: ConfigView)
    requires
        savable(c),
    ensures
        apply_ui_settings(ui_defaults(), ui_entries(c).take(4)) == (ConfigView {
            preset: c.preset,
            ..apply_ui_settings(ui_defaults(), ui_entries(c).take(3))
        }),
{
    reveal_strlit("path");
    reveal_strlit("debug");
    reveal_strlit("codec");
    reveal_strlit("preset");
    reveal_strlit("crf");
    reveal_strlit("bitrate");
    reveal_strlit("rate_mode");
    reveal_strlit("extra");
    reveal_strlit("container");
    reveal_strlit("container_path");
    reveal_strlit("alpha_format");
    reveal_strlit("delete_avi");
    reveal_strlit("merge_audio");
    reveal_strlit("ffmpeg");
    reveal_strlit("video");
    let es = ui_entries(c);
    assert("video"@.len() != "ffmpeg"@.len());
    assert("preset"@.len() != "codec"@.len());
    assert(es.take(4).drop_last() =~= es.take(3));
}

proof fn lemma_ui_apply_4(c: ConfigView)
    requires
        savable(c),
    ensures
        apply_ui_settings(ui_defaults(), ui_entries(c).take(5)) == (ConfigView {
            crf: c.crf,
            ..apply_ui_settings(ui_defaults(), ui_entries(c).take(4))
        }),
{
    reveal_strlit("path");
    reveal_strlit("debug");
    reveal_strlit("codec");
    reveal_strlit("preset");
    reveal_strlit("crf");
    reveal_strlit("bitrate");
    reveal_strlit("rate_mode");
    reveal_strlit("extra");
    reveal_strlit("container");
    reveal_strlit("container_path");
    reveal_strlit("alpha_format");
    reveal_strlit("delete_avi");
    reveal_strlit("merge_audio");
    reveal_strlit("ffmpeg");
    reveal_strlit("video");
    lemma_dec_plain(c.crf);
    let es = ui_entries(c);
    assert("video"@.len() != "ffmpeg"@.len());
    assert("crf"@.len() != "codec"@.len());
    assert("crf"@.len() != "preset"@.len());
    assert(es.take(5).drop_last() =~= es.take(4));
}

proof fn lemma_ui_apply_5(c: ConfigView)
    requires
        savable(c),
    ensures
        apply_ui_settings(ui_defaults(), ui_entries(c).take(6)) == (ConfigView {
            bitrate: c.bitrate,
            ..apply_ui_settings(ui_defaults(), ui_entries(c).take(5))
        }),
{
    reveal_strlit("path");
    reveal_strlit("debug");
    reveal_strlit("codec");
    reveal_strlit("preset");
    reveal_strlit("crf");
    reveal_strlit("bitrate");
    reveal_strlit("rate_mode");
    reveal_strlit("extra");
    reveal_strlit("container");
    reveal_strlit("container_path");
    reveal_strlit("alpha_format");
    reveal_strlit("delete_avi");
    reveal_strlit("merge_audio");
    reveal_strlit("ffmpeg");
    reveal_strlit("video");
    lemma_dec_plain(c.bitrate);
    let es = ui_entries(c);
    assert("video"@.len() != "ffmpeg"@.len());
    assert("bitrate"@.len() != "codec"@.len());
    assert("bitrate"@.len() != "preset"@.len());
    assert("bitrate"@.len() != "crf"@.len());
    assert(es.take(6).drop_last() =~= es.take(5));
}

proof fn lemma_ui_apply_6(c: ConfigView)
    requires
        savable(c),
    ensures
        apply_ui_settings(ui_defaults(), ui_entries(c).take(7)) == (ConfigView {
            rate_mode: c.rate_mode,
            ..apply_ui_settings(ui_defaults(), ui_entries(c).take(6))
        }),
{
    reveal_strlit("path");
    reveal_strlit("debug");
    reveal_strlit("codec");
    reveal_strlit("preset");
    reveal_strlit("crf");
    reveal_strlit("bitrate");
    reveal_strlit("rate_mode");
    reveal_strlit("extra");
    reveal_strlit("container");
    reveal_strlit("container_path");
    reveal_strlit("alpha_format");
    reveal_strlit("delete_avi");
    reveal_strlit("merge_audio");
    reveal_strlit("ffmpeg");
    reveal_strlit("video");
    let es = ui_entries(c);
    assert("video"@.len() != "ffmpeg"@.len());
    assert("rate_mode"@.len() != "codec"@.len());
    assert("rate_mode"@.len() != "preset"@.len());
    assert("rate_mode"@.len() != "crf"@.len());
    assert("rate_mode"@.len() != "bitrate"@.len());
    assert(es.take(7).drop_last() =~= es.take(6));
}

proof fn lemma_ui_apply_7(c: ConfigView)
    requires
        savable(c),
    ensures
        apply_ui_settings(ui_defaults(), ui_entries(c).take(8)) == (ConfigView {
            extra: c.extra,
            ..apply_ui_settings(ui_defaults(), ui_entries(c).take(7))
        }),
{
    reveal_strlit("path");
    reveal_strlit("debug");
    reveal_strlit("codec");
    reveal_strlit("preset");
    reveal_strlit("crf");
    reveal_strlit("bitrate");
    reveal_strlit("rate_mode");
    reveal_strlit("extra");
    reveal_strlit("container");
    reveal_strlit("container_path");
    reveal_strlit("alpha_format");
    reveal_strlit("delete_avi");
    reveal_strlit("merge_audio");
    reveal_strlit("ffmpeg");
    reveal_strlit("video");
    let es = ui_entries(c);
    assert("video"@.len() != "ffmpeg"@.len());
    assert("extra"@[0] != "codec"@[0]);
    assert("extra"@.len() != "preset"@.len());
    assert("extra"@.len() != "crf"@.len());
    assert("extra"@.len() != "bitrate"@.len());
    assert("extra"@.len() != "rate_mode"@.len());
    assert(es.take(8).drop_last() =~= es.take(7));
}

proof fn lemma_ui_apply_8(c: ConfigView)
    requires
        savable(c),
    ensures
        apply_ui_settings(ui_defaults(), ui_entries(c).take(9)) == (ConfigView {
            container: c.container,
            ..apply_ui_settings(ui_defaults(), ui_entries(c).take(8))
        }),
{
    reveal_strlit("path");
    reveal_strlit("debug");
    reveal_strlit("codec");
    reveal_strlit("preset");
    reveal_strlit("crf");
    reveal_strlit("bitrate");
    reveal_strlit("rate_mode");
    reveal_strlit("extra");
    reveal_strlit("container");
    reveal_strlit("container_path");
    reveal_strlit("alpha_format");
    reveal_strlit("delete_avi");
    reveal_strlit("merge_audio");
    reveal_strlit("ffmpeg");
    reveal_strlit("video");
    let es = ui_entries(c);
    assert("video"@.len() != "ffmpeg"@.len());
    assert("container"@.len() != "codec"@.len());
    assert("container"@.len() != "preset"@.len());
    assert("container"@.len() != "crf"@.len());
    assert("container"@.len() != "bitrate"@.len());
    assert("container"@[0] != "rate_mode"@[0]);
    assert("container"@.len() != "extra"@.len());
    assert(es.take(9).drop_last() =~= es.take(8));
}

proof fn lemma_ui_apply_9(c: ConfigView)
    requires
        savable(c),
    ensures
        apply_ui_settings(ui_defaults(), ui_entries(c).take(10)) == (ConfigView {
            container_path: c.container_path,
            ..apply_ui_settings(ui_defaults(), ui_entries(c).take(9))
        }),
{
    reveal_strlit("path");
    reveal_strlit("debug");
    reveal_strlit("codec");
    reveal_strlit("preset");
    reveal_strlit("crf");
    reveal_strlit("bitrate");
    reveal_strlit("rate_mode");
    reveal_strlit("extra");
    reveal_strlit("container");
    reveal_strlit("container_path");
    reveal_strlit("alpha_format");
    reveal_strlit("delete_avi");
    reveal_strlit("merge_audio");
    reveal_strlit("ffmpeg");
    reveal_strlit("video");
    let es = ui_entries(c);
    assert("video"@.len() != "ffmpeg"@.len());
    assert("container_path"@.len() != "codec"@.len());
    assert("container_path"@.len() != "preset"@.len());
    assert("container_path"@.len() != "crf"@.len());
    assert("container_path"@.len() != "bitrate"@.len());
    assert("container_path"@.len() != "rate_mode"@.len());
    assert("container_path"@.len() != "extra"@.len());
    assert("container_path"@.len() != "container"@.len());
    assert(es.take(10).drop_last() =~= es.take(9));
}

proof fn lemma_ui_apply_10(c: ConfigView)
    requires
        savable(c),
    ensures
        apply_ui_settings(ui_defaults(), ui_entries(c).take(11)) == (ConfigView {
            alpha_format: c.alpha_format,
            ..apply_ui_settings(ui_defaults(), ui_entries(c).take(10))
        }),
{
    reveal_strlit("path");
    reveal_strlit("debug");
    reveal_strlit("codec");
    reveal_strlit("preset");
    reveal_strlit("crf");
    reveal_strlit("bitrate");
    reveal_strlit("rate_mode");
    reveal_strlit("extra");
    reveal_strlit("container");
    reveal_strlit("container_path");
    reveal_strlit("alpha_format");
    reveal_strlit("delete_avi");
    reveal_strlit("merge_audio");
    reveal_strlit("ffmpeg");
    reveal_strlit("video");
    let es = ui_entries(c);
    assert("video"@.len() != "ffmpeg"@.len());
    assert("alpha_format"@.len() != "codec"@.len());
    assert("alpha_format"@.len() != "preset"@.len());
    assert("alpha_format"@.len() != "crf"@.len());
    assert("alpha_format"@.len() != "bitrate"@.len());
    assert("alpha_format"@.len() != "rate_mode"@.len());
    assert("alpha_format"@.len() != "extra"@.len());
    assert("alpha_format"@.len() != "container"@.len());
    assert("alpha_format"@.len() != "container_path"@.len());
    assert(es.take(11).drop_last() =~= es.take(10));
}

proof fn lemma_ui_apply_11(c: ConfigView)
    requires
        savable(c),
    ensures
        apply_ui_settings(ui_defaults(), ui_entries(c).take(12)) == (ConfigView {
            delete_avi: c.delete_avi,
            ..apply_ui_settings(ui_defaults(), ui_entries(c).take(11))
        }),
{
    reveal_strlit("path");
    reveal_strlit("debug");
    reveal_strlit("codec");
    reveal_strlit("preset");
    reveal_strlit("crf");
    reveal_strlit("bitrate");
    reveal_strlit("rate_mode");
    reveal_strlit("extra");
    reveal_strlit("container");
    reveal_strlit("container_path");
    reveal_strlit("alpha_format");
    reveal_strlit("delete_avi");
    reveal_strlit("merge_audio");
    reveal_strlit("ffmpeg");
    reveal_strlit("video");
    lemma_flag_text(c.delete_avi);
    let es = ui_entries(c);
    assert("video"@.len() != "ffmpeg"@.len());
    assert("delete_avi"@.len() != "codec"@.len());
    assert("delete_avi"@.len() != "preset"@.len());
    assert("delete_avi"@.len() != "crf"@.len());
    assert("delete_avi"@.len() != "bitrate"@.len());
    assert("delete_avi"@.len() != "rate_mode"@.len());
    assert("delete_avi"@.len() != "extra"@.len());
    assert("delete_avi"@.len() != "container"@.len());
    assert("delete_avi"@.len() != "container_path"@.len());
    assert("delete_avi"@.len() != "alpha_format"@.len());
    assert(es.take(12).drop_last() =~= es.take(11));
}

proof fn lemma_ui_apply_12(c: ConfigView)
    requires
        savable(c),
    ensures
        apply_ui_settings(ui_defaults(), ui_entries(c).take(13)) == (ConfigView {
            merge_audio: c.merge_audio,
            ..apply_ui_settings(ui_defaults(), ui_entries(c).take(12))
        }),
{
    reveal_strlit("path");
    reveal_strlit("debug");
    reveal_strlit("codec");
    reveal_strlit("preset");
    reveal_strlit("crf");
    reveal_strlit("bitrate");
    reveal_strlit("rate_mode");
    reveal_strlit("extra");
    reveal_strlit("container");
    reveal_strlit("container_path");
    reveal_strlit("alpha_format");
    reveal_strlit("delete_avi");
    reveal_strlit("merge_audio");
    reveal_strlit("ffmpeg");
    reveal_strlit("video");
    lemma_flag_text(c.merge_audio);
    let es = ui_entries(c);
    assert("video"@.len() != "ffmpeg"@.len());
    assert("merge_audio"@.len() != "codec"@.len());
    assert("merge_audio"@.len() != "preset"@.len());
    assert("merge_audio"@.len() != "crf"@.len());
    assert("merge_audio"@.len() != "bitrate"@.len());
    assert("merge_audio"@.len() != "rate_mode"@.len());
    assert("merge_audio"@.len() != "extra"@.len());
    assert("merge_audio"@.len() != "container"@.len());
    assert("merge_audio"@.len() != "container_path"@.len());
    assert("merge_audio"@.len() != "alpha_format"@.len());
    assert("merge_audio"@.len() != "delete_avi"@.len());
    assert(es.take(13).drop_last() =~= es.take(12));
}

/// Applying the written settings to the defaults gives the settings back.
proof fn lemma_ui_apply(c: ConfigView)
    requires
        savable(c),
    ensures
        apply_ui_settings(ui_defaults(), ui_entries(c)) == c,
{
    assert(ui_entries(c).take(0) =~= Seq::<(Seq<char>, Seq<char>, Seq<char>)>::empty());
    lemma_ui_apply_0(c);
    lemma_ui_apply_1(c);
    lemma_ui_apply_2(c);
    lemma_ui_apply_3(c);
    lemma_ui_apply_4(c);
    lemma_ui_apply_5(c);
    lemma_ui_apply_6(c);
    lemma_ui_apply_7(c);
    lemma_ui_apply_8(c);
    lemma_ui_apply_9(c);
    lemma_ui_apply_10(c);
    lemma_ui_apply_11(c);
    lemma_ui_apply_12(c);
    assert(ui_entries(c).take(13) =~= ui_entries(c));
}

/// What the configuration program writes, it reads back: for settings whose
/// texts have no line feed and no surrounding white space, and whose codec,
/// rate mode, container and transparent mode are in lower case, reading the
/// written file gives the same settings.
pub proof fn law_saved_settings_read_back(c: ConfigView)
    requires
        savable(c),
    ensures
        ui_settings_of(ui_text(c)) == c,
{
    lemma_ui_text_lines(c);
    lemma_ui_lines_entries(c);
    lemma_ui_apply(c);
}


/// The filter's settings for what the configuration program saves: the
/// settings the program writes, the rest at the filter's defaults.
pub open spec fn filter_view_of(c: ConfigView) -> FilterView {
    FilterView {
        ffmpeg_path: c.ffmpeg_path,
        codec: c.codec,
        preset: c.preset,
        crf: c.crf,
        bitrate: c.bitrate,
        rate_mode: c.rate_mode,
        extra: c.extra,
        container: c.container,
        container_path: c.container_path,
        alpha_format: c.alpha_format,
        debug: c.debug,
        delete_avi: c.delete_avi,
        merge_audio: c.merge_audio,
        ..default_settings()
    }
}

proof fn lemma_filter_reads_0(c: ConfigView)
    requires
        savable(c),
    ensures
        apply_settings(unread_settings(), ui_entries(c).take(1)) == (FilterView {
            ffmpeg_path: c.ffmpeg_path,
            ..apply_settings(unread_settings(), ui_entries(c).take(0))
        }),
{
    reveal_strlit("ffmpeg");
    reveal_strlit("path");
    let es = ui_entries(c);
    assert(es.take(1).drop_last() =~= es.take(0));
}

proof fn lemma_filter_reads_1(c: ConfigView)
    requires
        savable(c),
    ensures
        apply_settings(unread_settings(), ui_entries(c).take(2)) == (FilterView {
            debug: c.debug,
            ..apply_settings(unread_settings(), ui_entries(c).take(1))
        }),
{
    reveal_strlit("debug");
    reveal_strlit("ffmpeg");
    reveal_strlit("path");
    lemma_flag_text(c.debug);
    let es = ui_entries(c);
    assert("debug"@.len() != "path"@.len());
    assert(es.take(2).drop_last() =~= es.take(1));
}

proof fn lemma_filter_reads_2(c: ConfigView)
    requires
        savable(c),
    ensures
        apply_settings(unread_settings(), ui_entries(c).take(3)) == (FilterView {
            codec: c.codec,
            ..apply_settings(unread_settings(), ui_entries(c).take(2))
        }),
{
    reveal_strlit("codec");
    reveal_strlit("ffmpeg");
    reveal_strlit("video");
    let es = ui_entries(c);
    assert("video"@.len() != "ffmpeg"@.len());
    assert(es.take(3).drop_last() =~= es.take(2));
}

proof fn lemma_filter_reads_3(c: ConfigView)
    requires
        savable(c),
    ensures
        apply_settings(unread_settings(), ui_entries(c).take(4)) == (FilterView {
            preset: c.preset,
            ..apply_settings(unread_settings(), ui_entries(c).take(3))
        }),
{
    reveal_strlit("codec");
    reveal_strlit("ffmpeg");
    reveal_strlit("preset");
    reveal_strlit("video");
    let es = ui_entries(c);
    assert("video"@.len() != "ffmpeg"@.len());
    assert("preset"@.len() != "codec"@.len());
    assert(es.take(4).drop_last() =~= es.take(3));
}

proof fn lemma_filter_reads_4(c: ConfigView)
    requires
        savable(c),
    ensures
        apply_settings(unread_settings(), ui_entries(c).take(5)) == (FilterView {
            crf: c.crf,
            ..apply_settings(unread_settings(), ui_entries(c).take(4))
        }),
{
    reveal_strlit("codec");
    reveal_strlit("crf");
    reveal_strlit("ffmpeg");
    reveal_strlit("preset");
    reveal_strlit("video");
    lemma_dec_plain(c.crf);
    let es = ui_entries(c);
    assert("video"@.len() != "ffmpeg"@.len());
    assert("crf"@.len() != "codec"@.len());
    assert("crf"@.len() != "preset"@.len());
    assert(es.take(5).drop_last() =~= es.take(4));
}

proof fn lemma_filter_reads_5(c: ConfigView)
    requires
        savable(c),
    ensures
        apply_settings(unread_settings(), ui_entries(c).take(6)) == (FilterView {
            bitrate: c.bitrate,
            ..apply_settings(unread_settings(), ui_entries(c).take(5))
        }),
{
    reveal_strlit("bitrate");
    reveal_strlit("codec");
    reveal_strlit("crf");
    reveal_strlit("ffmpeg");
    reveal_strlit("preset");
    reveal_strlit("video");
    lemma_dec_plain(c.bitrate);
    let es = ui_entries(c);
    assert("video"@.len() != "ffmpeg"@.len());
    assert("bitrate"@.len() != "codec"@.len());
    assert("bitrate"@.len() != "preset"@.len());
    assert("bitrate"@.len() != "crf"@.len());
    assert(es.take(6).drop_last() =~= es.take(5));
}

proof fn lemma_filter_reads_6(c: ConfigView)
    requires
        savable(c),
    ensures
        apply_settings(unread_settings(), ui_entries(c).take(7)) == (FilterView {
            rate_mode: c.rate_mode,
            ..apply_settings(unread_settings(), ui_entries(c).take(6))
        }),
{
    reveal_strlit("bitrate");
    reveal_strlit("codec");
    reveal_strlit("crf");
    reveal_strlit("ffmpeg");
    reveal_strlit("preset");
    reveal_strlit("rate_mode");
    reveal_strlit("video");
    let es = ui_entries(c);
    assert("video"@.len() != "ffmpeg"@.len());
    assert("rate_mode"@.len() != "codec"@.len());
    assert("rate_mode"@.len() != "preset"@.len());
    assert("rate_mode"@.len() != "crf"@.len());
    assert("rate_mode"@.len() != "bitrate"@.len());
    assert(es.take(7).drop_last() =~= es.take(6));
}

proof fn lemma_filter_reads_7(c: ConfigView)
    requires
        savable(c),
    ensures
        apply_settings(unread_settings(), ui_entries(c).take(8)) == (FilterView {
            extra: c.extra,
            ..apply_settings(unread_settings(), ui_entries(c).take(7))
        }),
{
    reveal_strlit("bitrate");
    reveal_strlit("codec");
    reveal_strlit("crf");
    reveal_strlit("extra");
    reveal_strlit("ffmpeg");
    reveal_strlit("preset");
    reveal_strlit("rate_mode");
    reveal_strlit("video");
    let es = ui_entries(c);
    assert("video"@.len() != "ffmpeg"@.len());
    assert("extra"@[0] != "codec"@[0]);
    assert("extra"@.len() != "preset"@.len());
    assert("extra"@.len() != "crf"@.len());
    assert("extra"@.len() != "bitrate"@.len());
    assert("extra"@.len() != "rate_mode"@.len());
    assert(es.take(8).drop_last() =~= es.take(7));
}

proof fn lemma_filter_reads_8(c: ConfigView)
    requires
        savable(c),
    ensures
        apply_settings(unread_settings(), ui_entries(c).take(9)) == (FilterView {
            container: c.container,
            ..apply_settings(unread_settings(), ui_entries(c).take(8))
        }),
{
    reveal_strlit("bitrate");
    reveal_strlit("codec");
    reveal_strlit("container");
    reveal_strlit("crf");
    reveal_strlit("extra");
    reveal_strlit("ffmpeg");
    reveal_strlit("out_bisizeimage");
    reveal_strlit("out_bitrate");
    reveal_strlit("out_cbextra");
    reveal_strlit("out_fourcc");
    reveal_strlit("out_lsample");
    reveal_strlit("out_rcsource_zero");
    reveal_strlit("preset");
    reveal_strlit("rate_mode");
    reveal_strlit("video");
    let es = ui_entries(c);
    assert("video"@.len() != "ffmpeg"@.len());
    assert("container"@.len() != "codec"@.len());
    assert("container"@.len() != "preset"@.len());
    assert("container"@.len() != "crf"@.len());
    assert("container"@.len() != "bitrate"@.len());
    assert("container"@[0] != "rate_mode"@[0]);
    assert("container"@.len() != "extra"@.len());
    assert("container"@.len() != "out_lsample"@.len());
    assert("container"@.len() != "out_cbextra"@.len());
    assert("container"@.len() != "out_bisizeimage"@.len());
    assert("container"@.len() != "out_bitrate"@.len());
    assert("container"@.len() != "out_fourcc"@.len());
    assert("container"@.len() != "out_rcsource_zero"@.len());
    assert(es.take(9).drop_last() =~= es.take(8));
}

proof fn lemma_filter_reads_9(c: ConfigView)
    requires
        savable(c),
    ensures
        apply_settings(unread_settings(), ui_entries(c).take(10)) == (FilterView {
            container_path: c.container_path,
            ..apply_settings(unread_settings(), ui_entries(c).take(9))
        }),
{
    reveal_strlit("bitrate");
    reveal_strlit("codec");
    reveal_strlit("container");
    reveal_strlit("container_path");
    reveal_strlit("crf");
    reveal_strlit("extra");
    reveal_strlit("ffmpeg");
    reveal_strlit("out_bisizeimage");
    reveal_strlit("out_bitrate");
    reveal_strlit("out_cbextra");
    reveal_strlit("out_fourcc");
    reveal_strlit("out_lsample");
    reveal_strlit("out_rcsource_zero");
    reveal_strlit("preset");
    reveal_strlit("rate_mode");
    reveal_strlit("video");
    let es = ui_entries(c);
    assert("video"@.len() != "ffmpeg"@.len());
    assert("container_path"@.len() != "codec"@.len());
    assert("container_path"@.len() != "preset"@.len());
    assert("container_path"@.len() != "crf"@.len());
    assert("container_path"@.len() != "bitrate"@.len());
    assert("container_path"@.len() != "rate_mode"@.len());
    assert("container_path"@.len() != "extra"@.len());
    assert("container_path"@.len() != "out_lsample"@.len());
    assert("container_path"@.len() != "out_cbextra"@.len());
    assert("container_path"@.len() != "out_bisizeimage"@.len());
    assert("container_path"@.len() != "out_bitrate"@.len());
    assert("container_path"@.len() != "out_fourcc"@.len());
    assert("container_path"@.len() != "out_rcsource_zero"@.len());
    assert("container_path"@.len() != "container"@.len());
    assert(es.take(10).drop_last() =~= es.take(9));
}

proof fn lemma_filter_reads_10(c: ConfigView)
    requires
        savable(c),
    ensures
        apply_settings(unread_settings(), ui_entries(c).take(11)) == (FilterView {
            alpha_format: c.alpha_format,
            ..apply_settings(unread_settings(), ui_entries(c).take(10))
        }),
{
    reveal_strlit("alpha_format");
    reveal_strlit("bitrate");
    reveal_strlit("codec");
    reveal_strlit("container");
    reveal_strlit("container_path");
    reveal_strlit("crf");
    reveal_strlit("extra");
    reveal_strlit("ffmpeg");
    reveal_strlit("out_bisizeimage");
    reveal_strlit("out_bitrate");
    reveal_strlit("out_cbextra");
    reveal_strlit("out_fourcc");
    reveal_strlit("out_lsample");
    reveal_strlit("out_rcsource_zero");
    reveal_strlit("preset");
    reveal_strlit("rate_mode");
    reveal_strlit("video");
    let es = ui_entries(c);
    assert("video"@.len() != "ffmpeg"@.len());
    assert("alpha_format"@.len() != "codec"@.len());
    assert("alpha_format"@.len() != "preset"@.len());
    assert("alpha_format"@.len() != "crf"@.len());
    assert("alpha_format"@.len() != "bitrate"@.len());
    assert("alpha_format"@.len() != "rate_mode"@.len());
    assert("alpha_format"@.len() != "extra"@.len());
    assert("alpha_format"@.len() != "out_lsample"@.len());
    assert("alpha_format"@.len() != "out_cbextra"@.len());
    assert("alpha_format"@.len() != "out_bisizeimage"@.len());
    assert("alpha_format"@.len() != "out_bitrate"@.len());
    assert("alpha_format"@.len() != "out_fourcc"@.len());
    assert("alpha_format"@.len() != "out_rcsource_zero"@.len());
    assert("alpha_format"@.len() != "container"@.len());
    assert("alpha_format"@.len() != "container_path"@.len());
    assert(es.take(11).drop_last() =~= es.take(10));
}

proof fn lemma_filter_reads_11(c: ConfigView)
    requires
        savable(c),
    ensures
        apply_settings(unread_settings(), ui_entries(c).take(12)) == (FilterView {
            delete_avi: c.delete_avi,
            ..apply_settings(unread_settings(), ui_entries(c).take(11))
        }),
{
    reveal_strlit("alpha_format");
    reveal_strlit("bitrate");
    reveal_strlit("codec");
    reveal_strlit("container");
    reveal_strlit("container_path");
    reveal_strlit("crf");
    reveal_strlit("delete_avi");
    reveal_strlit("extra");
    reveal_strlit("ffmpeg");
    reveal_strlit("out_bisizeimage");
    reveal_strlit("out_bitrate");
    reveal_strlit("out_cbextra");
    reveal_strlit("out_fourcc");
    reveal_strlit("out_lsample");
    reveal_strlit("out_rcsource_zero");
    reveal_strlit("preset");
    reveal_strlit("rate_mode");
    reveal_strlit("video");
    lemma_flag_text(c.delete_avi);
    let es = ui_entries(c);
    assert("video"@.len() != "ffmpeg"@.len());
    assert("delete_avi"@.len() != "codec"@.len());
    assert("delete_avi"@.len() != "preset"@.len());
    assert("delete_avi"@.len() != "crf"@.len());
    assert("delete_avi"@.len() != "bitrate"@.len());
    assert("delete_avi"@.len() != "rate_mode"@.len());
    assert("delete_avi"@.len() != "extra"@.len());
    assert("delete_avi"@.len() != "out_lsample"@.len());
    assert("delete_avi"@.len() != "out_cbextra"@.len());
    assert("delete_avi"@.len() != "out_bisizeimage"@.len());
    assert("delete_avi"@.len() != "out_bitrate"@.len());
    assert("delete_avi"@[0] != "out_fourcc"@[0]);
    assert("delete_avi"@.len() != "out_rcsource_zero"@.len());
    assert("delete_avi"@.len() != "container"@.len());
    assert("delete_avi"@.len() != "container_path"@.len());
    assert("delete_avi"@.len() != "alpha_format"@.len());
    assert(es.take(12).drop_last() =~= es.take(11));
}

proof fn lemma_filter_reads_12(c: ConfigView)
    requires
        savable(c),
    ensures
        apply_settings(unread_settings(), ui_entries(c).take(13)) == (FilterView {
            merge_audio: c.merge_audio,
            ..apply_settings(unread_settings(), ui_entries(c).take(12))
        }),
{
    reveal_strlit("alpha_format");
    reveal_strlit("bitrate");
    reveal_strlit("codec");
    reveal_strlit("container");
    reveal_strlit("container_path");
    reveal_strlit("crf");
    reveal_strlit("delete_avi");
    reveal_strlit("extra");
    reveal_strlit("ffmpeg");
    reveal_strlit("merge_audio");
    reveal_strlit("out_bisizeimage");
    reveal_strlit("out_bitrate");
    reveal_strlit("out_cbextra");
    reveal_strlit("out_fourcc");
    reveal_strlit("out_lsample");
    reveal_strlit("out_rcsource_zero");
    reveal_strlit("preset");
    reveal_strlit("rate_mode");
    reveal_strlit("video");
    lemma_flag_text(c.merge_audio);
    let es = ui_entries(c);
    assert("video"@.len() != "ffmpeg"@.len());
    assert("merge_audio"@.len() != "codec"@.len());
    assert("merge_audio"@.len() != "preset"@.len());
    assert("merge_audio"@.len() != "crf"@.len());
    assert("merge_audio"@.len() != "bitrate"@.len());
    assert("merge_audio"@.len() != "rate_mode"@.len());
    assert("merge_audio"@.len() != "extra"@.len());
    assert("merge_audio"@[0] != "out_lsample"@[0]);
    assert("merge_audio"@[0] != "out_cbextra"@[0]);
    assert("merge_audio"@.len() != "out_bisizeimage"@.len());
    assert("merge_audio"@[0] != "out_bitrate"@[0]);
    assert("merge_audio"@.len() != "out_fourcc"@.len());
    assert("merge_audio"@.len() != "out_rcsource_zero"@.len());
    assert("merge_audio"@.len() != "container"@.len());
    assert("merge_audio"@.len() != "container_path"@.len());
    assert("merge_audio"@.len() != "alpha_format"@.len());
    assert("merge_audio"@.len() != "delete_avi"@.len());
    assert(es.take(13).drop_last() =~= es.take(12));
}

/// The filter reads what the configuration program saves: for settings
/// whose texts have no line feed and no surrounding white space (and whose
/// codec, rate mode, container and transparent mode are in lower case), the
/// filter's settings from the written file are those settings, with the
/// filter's defaults for the rest (and an empty rate mode read as VBR with a
/// bit rate, else CRF).
pub proof fn law_filter_reads_saved_settings(c: ConfigView)
    requires
        savable(c),
    ensures
        settings_of(ui_text(c)) == with_rate_mode(filter_view_of(c)),
{
    lemma_ui_text_lines(c);
    lemma_ui_lines_entries(c);
    assert(ui_entries(c).take(0) =~= Seq::<(Seq<char>, Seq<char>, Seq<char>)>::empty());
    lemma_filter_reads_0(c);
    lemma_filter_reads_1(c);
    lemma_filter_reads_2(c);
    lemma_filter_reads_3(c);
    lemma_filter_reads_4(c);
    lemma_filter_reads_5(c);
    lemma_filter_reads_6(c);
    lemma_filter_reads_7(c);
    lemma_filter_reads_8(c);
    lemma_filter_reads_9(c);
    lemma_filter_reads_10(c);
    lemma_filter_reads_11(c);
    lemma_filter_reads_12(c);
    assert(ui_entries(c).take(13) =~= ui_entries(c));
    assert(apply_settings(unread_settings(), ui_entries(c)) == filter_view_of(c));
}

} // verus!

