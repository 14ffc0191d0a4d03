//! Application configuration: a small `key=value` text format.

use vstd::prelude::*;
use crate::text::{
    chars_eq_str, chars_of, find, find_char, lemma_find_char, is_white, leading_white, push_chars, push_str, slice_chars,
    string_from, string_of, trailing_white, trim, trimmed,
};

verus! {

/// Audio quality settings for the application.
#[derive(Debug, Clone, Copy, PartialEq, Eq, Structural)]
pub enum AudioQuality {
    Low,
    Medium,
    High,
}

/// Main configuration of the application.
#[derive(Debug, Clone, PartialEq, Eq)]
pub struct Config {
    pub audio_quality: AudioQuality,
    pub username: String,
    pub input_device: Option<String>,
    pub output_device: Option<String>,
}

/// The mathematical content of a [`Config`].
pub struct ConfigModel {
    pub audio_quality: AudioQuality,
    pub username: Seq<char>,
    pub input_device: Option<Seq<char>>,
    pub output_device: Option<Seq<char>>,
}

pub open spec fn opt_view(o: Option<String>) -> Option<Seq<char>> {
    match o {
        Some(s) => Some(s@),
        None => None,
    }
}

impl View for Config {
    type V = ConfigModel;

    open spec fn view(&self) -> ConfigModel {
        ConfigModel {
            audio_quality: self.audio_quality,
            username: self.username@,
            input_device: opt_view(self.input_device),
            output_device: opt_view(self.output_device),
        }
    }
}

/// The configuration used when nothing else is given.
pub open spec fn default_model() -> ConfigModel {
    ConfigModel {
        audio_quality: AudioQuality::Medium,
        username: "User"@,
        input_device: None,
        output_device: None,
    }
}

impl Default for Config {
    fn default() -> (c: Self)
        ensures
            c@ == default_model(),
    {
        Config {
            audio_quality: AudioQuality::Medium,
            username: string_from("User"),
            input_device: None,
            output_device: None,
        }
    }
}

/// Name of a quality level, as `{:?}` prints it.
pub open spec fn quality_name(q: AudioQuality) -> Seq<char> {
    match q {
        AudioQuality::Low => "Low"@,
        AudioQuality::Medium => "Medium"@,
        AudioQuality::High => "High"@,
    }
}

/// How an optional device is written: its name, or `none`.
pub open spec fn device_text(d: Option<Seq<char>>) -> Seq<char> {
    match d {
        Some(s) => s,
        None => "none"@,
    }
}

/// The text that [`Config::to_string`] produces.
pub open spec fn config_text(c: ConfigModel) -> Seq<char> {
    "audio_quality="@ + quality_name(c.audio_quality) + "\nusername="@ + c.username
        + "\ninput_device="@ + device_text(c.input_device) + "\noutput_device="@ + device_text(
        c.output_device,
    )
}

/// Error returned when a configuration text cannot be parsed.
#[derive(Debug)]
pub struct ConfigParseError {
    message: String,
}

impl ConfigParseError {
    /// The message describing the error.
    pub closed spec fn message_view(&self) -> Seq<char> {
        self.message@
    }

    /// The message describing the error.
    pub fn message(&self) -> (m: &str)
        ensures
            m@ == self.message_view(),
    {
        self.message.as_str()
    }

    /// The text `Display` would show: `Configuration error: <message>`.
    pub fn to_display_string(&self) -> (s: String)
        ensures
            s@ == "Configuration error: "@ + self.message_view(),
    {
        let mut s = string_from("Configuration error: ");
        push_str(&mut s, self.message.as_str());
        s
    }
}

/// `s` split at every newline: one more piece than there are newlines.
pub open spec fn split_nl(s: Seq<char>) -> Seq<Seq<char>>
    decreases s.len(),
{
    if s.len() == 0 {
        seq![Seq::empty()]
    } else {
        let p = split_nl(s.drop_last());
        if s.last() == '\n' {
            p.push(Seq::empty())
        } else {
            p.update(p.len() - 1, p.last().push(s.last()))
        }
    }
}

/// A line without the `\r` of a `\r\n` ending.
pub open spec fn strip_cr(l: Seq<char>) -> Seq<char> {
    if l.len() > 0 && l.last() == '\r' {
        l.drop_last()
    } else {
        l
    }
}

/// The lines of `s`, as `str::lines` yields them.
pub open spec fn text_lines(s: Seq<char>) -> Seq<Seq<char>> {
    let p = split_nl(s);
    let body = p.drop_last().map_values(|l: Seq<char>| strip_cr(l));
    if p.last().len() == 0 {
        body
    } else {
        body.push(p.last())
    }
}

/// The effect of one line on the configuration read so far.
pub open spec fn apply_line(c: ConfigModel, line: Seq<char>) -> Result<ConfigModel, Seq<char>> {
    if trim(line).len() == 0 || (line.len() > 0 && line[0] == '#') {
        Ok(c)
    } else {
        match find_char(line, '=') {
            None => Err("Invalid line format: "@ + line),
            Some(i) => {
                let key = trim(line.take(i as int));
                let value = trim(line.skip(i + 1int));
                if key == "audio_quality"@ {
                    if value == "Low"@ {
                        Ok(ConfigModel { audio_quality: AudioQuality::Low, ..c })
                    } else if value == "Medium"@ {
                        Ok(ConfigModel { audio_quality: AudioQuality::Medium, ..c })
                    } else if value == "High"@ {
                        Ok(ConfigModel { audio_quality: AudioQuality::High, ..c })
                    } else {
                        Err("Unknown audio quality: "@ + value)
                    }
                } else if key == "username"@ {
                    Ok(ConfigModel { username: value, ..c })
                } else if key == "input_device"@ {
                    Ok(
                        ConfigModel {
                            input_device: if value == "none"@ {
                                None
                            } else {
                                Some(value)
                            },
                            ..c
                        },
                    )
                } else if key == "output_device"@ {
                    Ok(
                        ConfigModel {
                            output_device: if value == "none"@ {
                                None
                            } else {
                                Some(value)
                            },
                            ..c
                        },
                    )
                } else {
                    Err("Unknown configuration key: "@ + key)
                }
            },
        }
    }
}

/// The result of reading `lines` in order, starting from `c`.
pub open spec fn apply_lines(c: ConfigModel, lines: Seq<Seq<char>>) -> Result<ConfigModel, Seq<char>>
    decreases lines.len(),
{
    if lines.len() == 0 {
        Ok(c)
    } else {
        match apply_line(c, lines[0]) {
            Ok(c2) => apply_lines(c2, lines.drop_first()),
            Err(e) => Err(e),
        }
    }
}

/// What [`Config::from_str`] makes of a text: the configuration, or the error message.
pub open spec fn parse_config(s: Seq<char>) -> Result<ConfigModel, Seq<char>> {
    apply_lines(default_model(), text_lines(s))
}

/// The character sequences held by a sequence of vectors.
pub open spec fn views(v: Seq<Vec<char>>) -> Seq<Seq<char>> {
    v.map_values(|x: Vec<char>| x@)
}

/// Splits `v` into the pieces of `split_nl`.
fn split_pieces(v: &Vec<char>) -> (r: Vec<Vec<char>>)
    ensures
        views(r@) == split_nl(v@),
{
    let mut done: Vec<Vec<char>> = Vec::new();
    let mut cur: Vec<char> = Vec::new();
    let mut i: usize = 0;
    assert(v@.take(0) =~= Seq::<char>::empty());
    assert(views(done@).push(cur@) =~= split_nl(v@.take(0)));
    while i < v.len()
        invariant
            i <= v.len(),
            views(done@).push(cur@) == split_nl(v@.take(i as int)),
        decreases v.len() - i,
    {
        let ghost before = v@.take(i as int);
        let ghost dv = views(done@);
        let c = v[i];
        assert(v@.take(i + 1).drop_last() =~= before);
        assert(v@.take(i + 1).last() == c);
        assert(v@.take(i + 1).len() > 0);
        if c == '\n' {
            assert(split_nl(v@.take(i + 1)) == split_nl(before).push(Seq::<char>::empty()));
            let finished = cur;
            done.push(finished);
            assert(views(done@) =~= dv.push(finished@));
            cur = Vec::new();
            assert(views(done@).push(cur@) =~= split_nl(v@.take(i + 1)));
        } else {
            let ghost p = split_nl(before);
            assert(p.len() == dv.len() + 1);
            assert(p.last() == cur@);
            assert(split_nl(v@.take(i + 1)) == p.update(p.len() - 1, p.last().push(c)));
            cur.push(c);
            assert(views(done@) == dv);
            assert(views(done@).push(cur@) =~= split_nl(v@.take(i + 1)));
        }
        i = i + 1;
    }
    assert(v@.take(v.len() as int) =~= v@);
    let ghost dv = views(done@);
    let last = cur;
    done.push(last);
    assert(views(done@) =~= dv.push(last@));
    done
}

/// The lines of `v`, as `str::lines` yields them.
fn lines_of(v: &Vec<char>) -> (r: Vec<Vec<char>>)
    ensures
        views(r@) == text_lines(v@),
{
    let pieces = split_pieces(v);
    let ghost p = split_nl(v@);
    proof {
        reveal_with_fuel(split_nl, 1);
        assert(p.len() >= 1) by {
            lemma_split_nl_len(v@);
        }
    }
    let n = pieces.len();
    let mut out: Vec<Vec<char>> = Vec::new();
    let mut k: usize = 0;
    while k + 1 < n
        invariant
            n == pieces.len(),
            n >= 1,
            k + 1 <= n,
            views(pieces@) == p,
            views(out@) == p.take(k as int).map_values(|l: Seq<char>| strip_cr(l)),
        decreases n - k,
    {
        let piece = &pieces[k];
        let mut line = slice_chars(piece, 0, piece.len());
        assert(piece@ == p[k as int]);
        assert(line@ =~= p[k as int]);
        if line.len() > 0 && line[line.len() - 1] == '\r' {
            line.pop();
        }
        assert(line@ == strip_cr(p[k as int]));
        let ghost dv = views(out@);
        out.push(line);
        assert(views(out@) =~= dv.push(line@));
        k = k + 1;
        assert(views(out@) =~= p.take(k as int).map_values(|l: Seq<char>| strip_cr(l)));
    }
    assert(p.take((n - 1) as int) == p.drop_last());
    let last = &pieces[n - 1];
    assert(last@ == p.last());
    assert(views(out@) =~= p.drop_last().map_values(|l: Seq<char>| strip_cr(l)));
    if last.len() > 0 {
        let line = slice_chars(last, 0, last.len());
        assert(line@ =~= p.last());
        let ghost dv = views(out@);
        out.push(line);
        assert(views(out@) =~= dv.push(line@));
        assert(views(out@) =~= text_lines(v@));
    }
    out
}

proof fn lemma_split_nl_len(s: Seq<char>)
    ensures
        split_nl(s).len() >= 1,
    decreases s.len(),
{
    if s.len() > 0 {
        lemma_split_nl_len(s.drop_last());
    }
}

/// The optional device named by a value: `none` means no device.
fn device_of(value: Vec<char>) -> (r: Option<String>)
    ensures
        opt_view(r) == (if value@ == "none"@ {
            None
        } else {
            Some(value@)
        }),
{
    if chars_eq_str(&value, "none") {
        None
    } else {
        Some(string_of(&value))
    }
}

fn parse_error(prefix: &str, rest: &Vec<char>) -> (e: ConfigParseError)
    ensures
        e.message_view() == prefix@ + rest@,
{
    let mut m = string_from(prefix);
    push_chars(&mut m, rest);
    ConfigParseError { message: m }
}

impl Config {
    /// Serializes the configuration to text, one `key=value` per line.
    pub fn to_string(&self) -> (s: String)
        ensures
            s@ == config_text(self@),
    {
        let mut s = string_from("audio_quality=");
        match self.audio_quality {
            AudioQuality::Low => push_str(&mut s, "Low"),
            AudioQuality::Medium => push_str(&mut s, "Medium"),
            AudioQuality::High => push_str(&mut s, "High"),
        }
        push_str(&mut s, "\nusername=");
        push_str(&mut s, self.username.as_str());
        push_str(&mut s, "\ninput_device=");
        match &self.input_device {
            Some(d) => push_str(&mut s, d.as_str()),
            None => push_str(&mut s, "none"),
        }
        push_str(&mut s, "\noutput_device=");
        match &self.output_device {
            Some(d) => push_str(&mut s, d.as_str()),
            None => push_str(&mut s, "none"),
        }
        s
    }

    /// Applies one line of configuration text to `self`.
    fn apply(&mut self, line: &Vec<char>) -> (r: Result<(), ConfigParseError>)
        ensures
            match apply_line(old(self)@, line@) {
                Ok(c) => r is Ok && final(self)@ == c,
                Err(m) => r matches Err(e) && e.message_view() == m,
            },
    {
        let t = trimmed(line);
        if t.len() == 0 || (line.len() > 0 && line[0] == '#') {
            return Ok(());
        }
        match find(line, '=') {
            None => Err(parse_error("Invalid line format: ", line)),
            Some(i) => {
                let k = slice_chars(line, 0, i);
                let key = trimmed(&k);
                let rest = slice_chars(line, i + 1, line.len());
                let value = trimmed(&rest);
                assert(k@ == line@.take(i as int));
                assert(rest@ == line@.skip(i + 1));
                if chars_eq_str(&key, "audio_quality") {
                    if chars_eq_str(&value, "Low") {
                        self.audio_quality = AudioQuality::Low;
                    } else if chars_eq_str(&value, "Medium") {
                        self.audio_quality = AudioQuality::Medium;
                    } else if chars_eq_str(&value, "High") {
                        self.audio_quality = AudioQuality::High;
                    } else {
                        return Err(parse_error("Unknown audio quality: ", &value));
                    }
                    Ok(())
                } else if chars_eq_str(&key, "username") {
                    self.username = string_of(&value);
                    Ok(())
                } else if chars_eq_str(&key, "input_device") {
                    self.input_device = device_of(value);
                    Ok(())
                } else if chars_eq_str(&key, "output_device") {
                    self.output_device = device_of(value);
                    Ok(())
                } else {
                    Err(parse_error("Unknown configuration key: ", &key))
                }
            },
        }
    }

    /// Parses configuration text: blank lines and lines starting with `#` are skipped,
    /// every other line must be `key=value` with a known key; keys not given keep their
    /// default value.
    pub fn from_str(s: &str) -> (r: Result<Config, ConfigParseError>)
        ensures
            match parse_config(s@) {
                Ok(c) => r matches Ok(cfg) && cfg@ == c,
                Err(m) => r matches Err(e) && e.message_view() == m,
            },
    {
        let chars = chars_of(s);
        let lines = lines_of(&chars);
        let ghost all = views(lines@);
        assert(all == text_lines(s@));
        let mut config = Config::default();
        let mut k: usize = 0;
        assert(all.skip(0) =~= all);
        while k < lines.len()
            invariant
                k <= lines.len(),
                all == views(lines@),
                all == text_lines(s@),
                apply_lines(default_model(), all) == apply_lines(config@, all.skip(k as int)),
            decreases lines.len() - k,
        {
            assert(lines@[k as int]@ == all[k as int]);
            assert(all.skip(k as int)[0] == all[k as int]);
            assert(all.skip(k as int).drop_first() =~= all.skip(k + 1));
            let ghost before = config@;
            match config.apply(&lines[k]) {
                Ok(()) => {},
                Err(e) => {
                    assert(apply_lines(before, all.skip(k as int)) == Err::<ConfigModel, Seq<char>>(
                        e.message_view(),
                    ));
                    assert(parse_config(s@) == Err::<ConfigModel, Seq<char>>(e.message_view()));
                    return Err(e);
                },
            }
            k = k + 1;
        }
        assert(all.skip(k as int).len() == 0);
        assert(apply_lines(config@, all.skip(k as int)) == Ok::<ConfigModel, Seq<char>>(config@));
        Ok(config)
    }
}

/// A field value that survives being written and read back: no newline, and no white
/// space at either end.
pub open spec fn config_field_ok(v: Seq<char>) -> bool {
    !v.contains('\n') && (v.len() == 0 || (!is_white(v[0]) && !is_white(v.last())))
}

/// A device entry that survives being written and read back.
pub open spec fn config_device_ok(d: Option<Seq<char>>) -> bool {
    match d {
        Some(v) => config_field_ok(v) && v != "none"@,
        None => true,
    }
}

/// Reading back what [`Config::to_string`] wrote gives the same configuration, for every
/// configuration whose username and device names have no newline, no white space at either
/// end, and whose devices are not named `none`.
pub proof fn lemma_config_roundtrip(c: ConfigModel)
    requires
        config_field_ok(c.username),
        config_device_ok(c.input_device),
        config_device_ok(c.output_device),
    ensures
        parse_config(config_text(c)) == Ok::<ConfigModel, Seq<char>>(c),
{
    reveal_strlit("audio_quality=");
    reveal_strlit("\nusername=");
    reveal_strlit("\ninput_device=");
    reveal_strlit("\noutput_device=");
    reveal_strlit("username=");
    reveal_strlit("input_device=");
    reveal_strlit("output_device=");
    reveal_strlit("Low");
    reveal_strlit("Medium");
    reveal_strlit("High");
    reveal_strlit("none");
    reveal_strlit("audio_quality");
    reveal_strlit("username");
    reveal_strlit("input_device");
    reveal_strlit("output_device");
    let q = quality_name(c.audio_quality);
    let a = "audio_quality="@ + q;
    let b = "username="@ + c.username;
    let i = "input_device="@ + device_text(c.input_device);
    let o = "output_device="@ + device_text(c.output_device);
    let nl = seq!['\n'];
    assert(config_text(c) =~= a + nl + b + nl + i + nl + o);
    assert(!q.contains('\n'));
    assert(no_nl(a)) by { lemma_no_nl_concat("audio_quality="@, q); }
    assert(no_nl(b)) by { lemma_no_nl_concat("username="@, c.username); }
    assert(no_nl(device_text(c.input_device)));
    assert(no_nl(device_text(c.output_device)));
    assert(no_nl(i)) by { lemma_no_nl_concat("input_device="@, device_text(c.input_device)); }
    assert(no_nl(o)) by { lemma_no_nl_concat("output_device="@, device_text(c.output_device)); }
    lemma_split_join(a, b);
    lemma_split_join(a + nl + b, i);
    lemma_split_join(a + nl + b + nl + i, o);
    lemma_split_single(a);
    lemma_split_single(b);
    lemma_split_single(i);
    lemma_split_single(o);
    let text = config_text(c);
    let lines = seq![a, b, i, o];
    assert(split_nl(text) =~= lines);
    assert(text_lines(text) =~= lines);
    let c1 = ConfigModel { audio_quality: c.audio_quality, ..default_model() };
    let c2 = ConfigModel { username: c.username, ..c1 };
    let c3 = ConfigModel { input_device: c.input_device, ..c2 };
    lemma_line_quality(default_model(), c.audio_quality);
    lemma_line_username(c1, c.username);
    lemma_line_input(c2, c.input_device);
    lemma_line_output(c3, c.output_device);
    assert(ConfigModel { output_device: c.output_device, ..c3 } == c);
    assert(lines.drop_first() =~= seq![b, i, o]);
    assert(seq![b, i, o].drop_first() =~= seq![i, o]);
    assert(seq![i, o].drop_first() =~= seq![o]);
    assert(seq![o].drop_first() =~= Seq::<Seq<char>>::empty());
    assert(apply_lines(c, Seq::<Seq<char>>::empty()) == Ok::<ConfigModel, Seq<char>>(c));
    assert(apply_lines(c3, seq![o]) == Ok::<ConfigModel, Seq<char>>(c));
    assert(apply_lines(c2, seq![i, o]) == Ok::<ConfigModel, Seq<char>>(c));
    assert(apply_lines(c1, seq![b, i, o]) == Ok::<ConfigModel, Seq<char>>(c));
    assert(apply_lines(default_model(), lines) == Ok::<ConfigModel, Seq<char>>(c));
}

/// A comment line is ignored: a text that starts with a line whose first character is `#`
/// reads as the text after that line.
pub proof fn lemma_comment_line_ignored(x: Seq<char>, s: Seq<char>)
    requires
        !x.contains('\n'),
    ensures
        parse_config(seq!['#'] + x + seq!['\n'] + s) == parse_config(s),
{
    let a = seq!['#'] + x;
    assert(no_nl(seq!['#'])) by {
        if seq!['#'].contains('\n') {
            let k = choose|k: int| 0 <= k < 1 && seq!['#'][k] == '\n';
        }
    }
    lemma_no_nl_concat(seq!['#'], x);
    lemma_split_single(a);
    lemma_split_join(a, s);
    lemma_split_nl_len(s);
    let q = split_nl(s);
    let text = a + seq!['\n'] + s;
    assert(seq!['#'] + x + seq!['\n'] + s =~= text);
    let p = split_nl(text);
    assert(p =~= seq![a] + q);
    assert(p.drop_last() =~= seq![a] + q.drop_last());
    assert(p.last() == q.last());
    let l = strip_cr(a);
    assert(p.drop_last().map_values(|t: Seq<char>| strip_cr(t)) =~= seq![l] + q.drop_last().map_values(
        |t: Seq<char>| strip_cr(t),
    ));
    let rest = text_lines(s);
    assert(text_lines(text) =~= seq![l] + rest);
    assert(l.len() > 0 && l[0] == '#');
    assert(apply_line(default_model(), l) == Ok::<ConfigModel, Seq<char>>(default_model()));
    assert((seq![l] + rest).drop_first() =~= rest);
    assert((seq![l] + rest)[0] == l);
}

proof fn lemma_line_quality(c: ConfigModel, q: AudioQuality)
    ensures
        apply_line(c, "audio_quality="@ + quality_name(q)) == Ok::<ConfigModel, Seq<char>>(
            ConfigModel { audio_quality: q, ..c },
        ),
{
    reveal_strlit("audio_quality=");
    reveal_strlit("audio_quality");
    reveal_strlit("Low");
    reveal_strlit("Medium");
    reveal_strlit("High");
    let key = "audio_quality"@;
    assert("audio_quality="@ =~= key + seq!['=']);
    assert(!key.contains('=') && !key.contains('\n'));
    lemma_apply_field(key, quality_name(q), c);
}

proof fn lemma_line_username(c: ConfigModel, v: Seq<char>)
    requires
        v.len() == 0 || (!is_white(v[0]) && !is_white(v.last())),
    ensures
        apply_line(c, "username="@ + v) == Ok::<ConfigModel, Seq<char>>(
            ConfigModel { username: v, ..c },
        ),
{
    reveal_strlit("username=");
    reveal_strlit("username");
    reveal_strlit("audio_quality");
    let key = "username"@;
    assert("username="@ =~= key + seq!['=']);
    assert(!key.contains('=') && !key.contains('\n'));
    assert(key != "audio_quality"@);
    lemma_apply_field(key, v, c);
}

proof fn lemma_line_input(c: ConfigModel, d: Option<Seq<char>>)
    requires
        config_device_ok(d),
    ensures
        apply_line(c, "input_device="@ + device_text(d)) == Ok::<ConfigModel, Seq<char>>(
            ConfigModel { input_device: d, ..c },
        ),
{
    reveal_strlit("input_device=");
    reveal_strlit("input_device");
    reveal_strlit("username");
    reveal_strlit("audio_quality");
    reveal_strlit("none");
    let key = "input_device"@;
    assert("input_device="@ =~= key + seq!['=']);
    assert(!key.contains('=') && !key.contains('\n'));
    assert(key != "audio_quality"@);
    assert(key != "username"@);
    lemma_apply_field(key, device_text(d), c);
}

proof fn lemma_line_output(c: ConfigModel, d: Option<Seq<char>>)
    requires
        config_device_ok(d),
    ensures
        apply_line(c, "output_device="@ + device_text(d)) == Ok::<ConfigModel, Seq<char>>(
            ConfigModel { output_device: d, ..c },
        ),
{
    reveal_strlit("output_device=");
    reveal_strlit("output_device");
    reveal_strlit("input_device");
    reveal_strlit("username");
    reveal_strlit("audio_quality");
    reveal_strlit("none");
    let key = "output_device"@;
    assert("output_device="@ =~= key + seq!['=']);
    assert(!key.contains('=') && !key.contains('\n'));
    assert(key != "audio_quality"@);
    assert(key != "username"@);
    assert(key != "input_device"@);
    lemma_apply_field(key, device_text(d), c);
}

/// `s` has no newline.
pub open spec fn no_nl(s: Seq<char>) -> bool {
    !s.contains('\n')
}

proof fn lemma_no_nl_concat(x: Seq<char>, y: Seq<char>)
    requires
        no_nl(x),
        no_nl(y),
    ensures
        no_nl(x + y),
{
    if (x + y).contains('\n') {
        let k = choose|k: int| 0 <= k < (x + y).len() && (x + y)[k] == '\n';
        if k < x.len() {
            assert(x[k] == '\n');
        } else {
            assert(y[k - x.len()] == '\n');
        }
    }
}

proof fn lemma_split_single(s: Seq<char>)
    requires
        no_nl(s),
    ensures
        split_nl(s) == seq![s],
    decreases s.len(),
{
    if s.len() > 0 {
        let t = s.drop_last();
        assert(no_nl(t)) by {
            if t.contains('\n') {
                let k = choose|k: int| 0 <= k < t.len() && t[k] == '\n';
                assert(s[k] == '\n');
            }
        }
        lemma_split_single(t);
        assert(s.last() != '\n') by {
            assert(s[s.len() - 1] == s.last());
        }
        assert(t.push(s.last()) =~= s);
        assert(split_nl(s) =~= seq![s]);
    } else {
        assert(s =~= Seq::<char>::empty());
    }
}

proof fn lemma_split_join(x: Seq<char>, y: Seq<char>)
    ensures
        split_nl(x + seq!['\n'] + y) == split_nl(x) + split_nl(y).drop_first().insert(
            0,
            split_nl(y)[0],
        ),
        split_nl(x + seq!['\n'] + y) == split_nl(x) + split_nl(y),
    decreases y.len(),
{
    lemma_split_nl_len(y);
    assert(split_nl(y).drop_first().insert(0, split_nl(y)[0]) =~= split_nl(y));
    if y.len() == 0 {
        assert(x + seq!['\n'] + y =~= x.push('\n'));
        assert((x + seq!['\n'] + y).drop_last() =~= x);
        assert(split_nl(x + seq!['\n'] + y) =~= split_nl(x) + split_nl(y));
    } else {
        let y0 = y.drop_last();
        lemma_split_join(x, y0);
        lemma_split_nl_len(y0);
        assert((x + seq!['\n'] + y).drop_last() =~= x + seq!['\n'] + y0);
        assert((x + seq!['\n'] + y).last() == y.last());
        assert(split_nl(x + seq!['\n'] + y) =~= split_nl(x) + split_nl(y));
    }
}

proof fn lemma_trim_plain(v: Seq<char>)
    requires
        v.len() == 0 || (!is_white(v[0]) && !is_white(v.last())),
    ensures
        trim(v) == v,
{
    if v.len() > 0 {
        assert(leading_white(v) == 0);
        assert(v.skip(0) =~= v);
        assert(trailing_white(v) == 0);
        assert(v.take(v.len() as int) =~= v);
    } else {
        assert(v.skip(leading_white(v) as int) =~= v);
        assert(trailing_white(v.skip(leading_white(v) as int)) == 0);
        assert(trim(v) =~= v);
    }
}

proof fn lemma_apply_field(key: Seq<char>, value: Seq<char>, c: ConfigModel)
    requires
        key.len() > 0,
        !key.contains('='),
        !key.contains('\n'),
        !is_white(key[0]),
        !is_white(key.last()),
        key[0] != '#',
        value.len() == 0 || (!is_white(value[0]) && !is_white(value.last())),
    ensures
        ({
            let line = key + seq!['='] + value;
            &&& trim(line).len() != 0
            &&& line[0] != '#'
            &&& find_char(line, '=') == Some(key.len())
            &&& trim(line.take(key.len() as int)) == key
            &&& trim(line.skip(key.len() + 1int)) == value
        }),
{
    let line = key + seq!['='] + value;
    assert forall|k: int| 0 <= k < key.len() implies line[k] != '=' by {
        assert(line[k] == key[k]);
        if key[k] == '=' {
            assert(key.contains('='));
        }
    }
    lemma_find_char(line, '=', key.len() as int);
    assert(line.take(key.len() as int) =~= key);
    assert(line.skip(key.len() + 1int) =~= value);
    lemma_trim_plain(key);
    lemma_trim_plain(value);
    assert(line[0] == key[0]);
    assert(line.last() != '=' ==> line.last() == value.last());
    assert(!is_white(line[0]));
    assert(!is_white(line.last())) by {
        if value.len() == 0 {
            assert(line.last() == '=');
        } else {
            assert(line.last() == value.last());
        }
    }
    lemma_trim_plain(line);
}

} // verus!
