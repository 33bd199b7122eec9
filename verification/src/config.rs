//! Runtime configuration: how the values read from the settings file and
//! from the environment become the wrapper's settings.

use vstd::prelude::*;
use crate::text::{eq_ignore, spec_eq_ignore, spec_trim, str_eq, trim, utf8_lossy, spec_utf8_lossy, parse_i32, spec_parse_i32};

verus! {

/// The presentation backends.
#[derive(Clone, Copy, Debug, PartialEq, Eq, Structural)]
pub enum Renderer {
    Gdi,
    OpenGl,
    D3d9,
}

/// Fixed-output mode: the display's default.
pub const DMDFO_DEFAULT: u32 = 0;
/// Fixed-output mode: stretch to the display.
pub const DMDFO_STRETCH: u32 = 1;
/// Fixed-output mode: centre on the display.
pub const DMDFO_CENTER: u32 = 2;

/// Length of the text a settings read returned: up to the count the read
/// reported (at most the buffer) and the first NUL within it.
pub open spec fn text_len(buf: Seq<u8>, n: int) -> int
    decreases 0int,
{
    let end = if n < buf.len() { n } else { buf.len() as int };
    first_nul(buf, 0, end)
}

/// Index of the first NUL of `buf` in `[i, end)`, `end` when there is none.
pub open spec fn first_nul(buf: Seq<u8>, i: int, end: int) -> int
    decreases end - i,
{
    if i >= end { end } else if buf[i] == 0 { i } else { first_nul(buf, i + 1, end) }
}

proof fn lemma_first_nul(buf: Seq<u8>, i: int, end: int)
    requires
        0 <= i <= end <= buf.len(),
    ensures
        i <= first_nul(buf, i, end) <= end,
    decreases end - i,
{
    if i < end && buf[i] != 0 {
        lemma_first_nul(buf, i + 1, end);
    }
}

/// The string a settings read yields: the default when the read returned
/// nothing, else the returned text (up to its NUL) decoded as UTF-8.
pub open spec fn spec_get_string(buf: Seq<u8>, n: u32, default: Seq<char>) -> Seq<char> {
    if n == 0 { default } else { spec_utf8_lossy(buf.subrange(0, text_len(buf, n as int))) }
}

/// The string a settings read yields, from the buffer the read filled in
/// and the count it returned (see `spec_get_string`).
pub fn get_string(buf: &[u8], n: u32, default: &str) -> (r: String)
    ensures
        r@ == spec_get_string(buf@, n, default@),
{
    if n == 0 {
        return default.to_string();
    }
    let blen = buf.len();
    let end: usize = if (n as usize) < blen { n as usize } else { blen };
    let mut i: usize = 0;
    while i < end && buf[i] != 0
        invariant
            i <= end,
            end <= buf@.len(),
            end == (if (n as int) < buf@.len() { n as int } else { buf@.len() as int }),
            first_nul(buf@, 0, end as int) == first_nul(buf@, i as int, end as int),
        decreases end - i,
    {
        i = i + 1;
    }
    let text = slice_prefix(buf, i);
    utf8_lossy(text)
}

fn slice_prefix(s: &[u8], n: usize) -> (r: &[u8])
    requires
        n <= s@.len(),
    ensures
        r@ == s@.subrange(0, n as int),
{
    &s[0..n]
}

/// Whether a setting's value means "on": "yes" or "true" in any ASCII case,
/// or "1", ignoring surrounding white space.
pub open spec fn spec_get_bool(value: Seq<char>) -> bool {
    let v = spec_trim(value);
    spec_eq_ignore(v, "yes"@) || spec_eq_ignore(v, "true"@) || v == "1"@
}

/// Whether a setting's value means "on" (see `spec_get_bool`).
pub fn get_bool(value: &str) -> (r: bool)
    ensures
        r == spec_get_bool(value@),
{
    let v = trim(value);
    eq_ignore(v, "yes") || eq_ignore(v, "true") || str_eq(v, "1")
}

/// The text a boolean setting defaults to.
pub open spec fn spec_bool_default(b: bool) -> Seq<char> {
    if b { "Yes"@ } else { "No"@ }
}

/// The text a boolean setting defaults to.
pub fn bool_default(b: bool) -> (r: &'static str)
    ensures
        r@ == spec_bool_default(b),
{
    if b { "Yes" } else { "No" }
}

/// The renderer a setting selects, and whether it was chosen automatically:
/// "opengl", "gdi" or "d3d9" (any case, white space ignored) select that
/// backend; "auto" selects Direct3D 9, or OpenGL when the default is
/// "opengl", automatically; anything else selects Direct3D 9.
pub open spec fn spec_get_renderer(value: Seq<char>, default: Seq<char>) -> (Renderer, bool) {
    let v = spec_trim(value);
    if spec_eq_ignore(v, "opengl"@) {
        (Renderer::OpenGl, false)
    } else if spec_eq_ignore(v, "gdi"@) {
        (Renderer::Gdi, false)
    } else if spec_eq_ignore(v, "d3d9"@) {
        (Renderer::D3d9, false)
    } else if spec_eq_ignore(v, "auto"@) {
        if default == "opengl"@ { (Renderer::OpenGl, true) } else { (Renderer::D3d9, true) }
    } else {
        (Renderer::D3d9, false)
    }
}

/// The renderer a setting selects (see `spec_get_renderer`).
pub fn get_renderer(value: &str, default: &str) -> (r: (Renderer, bool))
    ensures
        r == spec_get_renderer(value@, default@),
{
    let v = trim(value);
    if eq_ignore(v, "opengl") {
        (Renderer::OpenGl, false)
    } else if eq_ignore(v, "gdi") {
        (Renderer::Gdi, false)
    } else if eq_ignore(v, "d3d9") {
        (Renderer::D3d9, false)
    } else if eq_ignore(v, "auto") {
        if str_eq(default, "opengl") { (Renderer::OpenGl, true) } else { (Renderer::D3d9, true) }
    } else {
        (Renderer::D3d9, false)
    }
}

/// The fixed-output mode a setting selects: "default", "center" or
/// "stretch" (any case, white space ignored); anything else the default.
pub open spec fn spec_get_fixed_output(value: Seq<char>) -> u32 {
    let v = spec_trim(value);
    if spec_eq_ignore(v, "default"@) {
        DMDFO_DEFAULT
    } else if spec_eq_ignore(v, "center"@) {
        DMDFO_CENTER
    } else if spec_eq_ignore(v, "stretch"@) {
        DMDFO_STRETCH
    } else {
        DMDFO_DEFAULT
    }
}

/// The fixed-output mode a setting selects (see `spec_get_fixed_output`).
pub fn get_fixed_output(value: &str) -> (r: u32)
    ensures
        r == spec_get_fixed_output(value@),
{
    let v = trim(value);
    if eq_ignore(v, "default") {
        DMDFO_DEFAULT
    } else if eq_ignore(v, "center") {
        DMDFO_CENTER
    } else if eq_ignore(v, "stretch") {
        DMDFO_STRETCH
    } else {
        DMDFO_DEFAULT
    }
}


/// What a settings-file read of one text key returned: the buffer it
/// filled and the count of characters it reported.
#[derive(Debug)]
pub struct ProfileText {
    pub buf: Vec<u8>,
    pub n: u32,
}

/// What was read from the settings file: the text keys as returned by the
/// read, the integer keys as their value (none when the key is absent).
#[derive(Debug)]
pub struct RawSettings {
    pub maintain_aspect_ratio: ProfileText,
    pub windowboxing: ProfileText,
    pub stretch_to_fullscreen: ProfileText,
    pub renderer: ProfileText,
    pub primary_surface2tex: ProfileText,
    pub gl_finish: ProfileText,
    pub convert_on_gpu: ProfileText,
    pub vsync: ProfileText,
    pub single_proc_affinity: ProfileText,
    pub rgb555: ProfileText,
    pub gl_fence_sync: ProfileText,
    pub fixed_output: ProfileText,
    pub stretch_to_width: Option<i32>,
    pub stretch_to_height: Option<i32>,
    pub draw_fps: Option<i32>,
    pub target_fps: Option<i32>,
    pub monitor_edge_timer: Option<i32>,
}

/// The environment variables that override settings, when set.
#[derive(Debug)]
pub struct EnvOverrides {
    pub draw_fps: Option<String>,
    pub target_fps: Option<String>,
}

/// The wrapper's settings. `target_fps` is the frame rate aimed for, 0
/// for none.
#[derive(Clone, Copy, Debug, PartialEq, Eq, Structural)]
pub struct Settings {
    pub maintain_aspect_ratio: bool,
    pub windowboxing: bool,
    pub stretch_to_fullscreen: bool,
    pub stretch_to_width: i32,
    pub stretch_to_height: i32,
    pub draw_fps: bool,
    pub renderer: Renderer,
    pub auto_renderer: bool,
    pub primary_surface2tex: bool,
    pub gl_finish: bool,
    pub convert_on_gpu: bool,
    pub target_fps: i32,
    pub swap_interval: i32,
    pub single_proc_affinity: bool,
    pub edge_timeout_ms: i32,
    pub rgb555: bool,
    pub gl_fence_sync: bool,
    pub fixed_output: u32,
}

/// A boolean key: its text read with the given default, interpreted.
pub open spec fn spec_bool_key(t: ProfileText, default: bool) -> bool {
    spec_get_bool(spec_get_string(t.buf@, t.n, spec_bool_default(default)))
}

/// An integer key: its value, or the default when it is absent.
pub open spec fn spec_int_key(v: Option<i32>, default: i32) -> i32 {
    match v { Some(x) => x, None => default }
}

/// The frame rate an environment value asks for: a positive integer
/// (white space ignored).
pub open spec fn spec_env_fps(v: Option<String>) -> Option<i32> {
    match v {
        Some(s) => match spec_parse_i32(spec_trim(s@)) {
            Some(n) if n > 0 => Some(n),
            _ => None,
        },
        None => None,
    }
}

/// The settings after loading: each key read with the previous setting
/// (or a fixed value) as its default, then the environment overrides.
pub open spec fn spec_load(prev: Settings, raw: &RawSettings, env: &EnvOverrides) -> Settings {
    let (renderer, auto_renderer) = spec_get_renderer(spec_get_string(raw.renderer.buf@, raw.renderer.n, "auto"@), "auto"@);
    let tfps = spec_int_key(raw.target_fps, 0);
    let draw_fps = spec_int_key(raw.draw_fps, if prev.draw_fps { 1 } else { 0 }) != 0;
    let target_fps = if tfps > 0 { tfps } else { 0 };
    Settings {
        maintain_aspect_ratio: spec_bool_key(raw.maintain_aspect_ratio, prev.maintain_aspect_ratio),
        windowboxing: spec_bool_key(raw.windowboxing, prev.windowboxing),
        stretch_to_fullscreen: spec_bool_key(raw.stretch_to_fullscreen, prev.stretch_to_fullscreen),
        stretch_to_width: spec_int_key(raw.stretch_to_width, prev.stretch_to_width),
        stretch_to_height: spec_int_key(raw.stretch_to_height, prev.stretch_to_height),
        draw_fps: draw_fps || (env.draw_fps matches Some(v) && spec_get_bool(v@)),
        renderer,
        auto_renderer,
        primary_surface2tex: spec_bool_key(raw.primary_surface2tex, prev.primary_surface2tex),
        gl_finish: spec_bool_key(raw.gl_finish, prev.gl_finish),
        convert_on_gpu: spec_bool_key(raw.convert_on_gpu, true),
        target_fps: match spec_env_fps(env.target_fps) { Some(n) => n, None => target_fps },
        swap_interval: if spec_bool_key(raw.vsync, false) { 1 } else { 0 },
        single_proc_affinity: spec_bool_key(raw.single_proc_affinity, true),
        edge_timeout_ms: spec_int_key(raw.monitor_edge_timer, prev.edge_timeout_ms),
        rgb555: spec_bool_key(raw.rgb555, false),
        gl_fence_sync: spec_bool_key(raw.gl_fence_sync, prev.gl_fence_sync),
        fixed_output: spec_get_fixed_output(spec_get_string(raw.fixed_output.buf@, raw.fixed_output.n, "stretch"@)),
    }
}

fn bool_key(t: &ProfileText, default: bool) -> (r: bool)
    ensures
        r == spec_bool_key(*t, default),
{
    get_bool(get_string(t.buf.as_slice(), t.n, bool_default(default)).as_str())
}

fn int_key(v: Option<i32>, default: i32) -> (r: i32)
    ensures
        r == spec_int_key(v, default),
{
    match v { Some(x) => x, None => default }
}

/// The frame rate an environment value asks for (see `spec_env_fps`).
pub fn env_fps(v: &Option<String>) -> (r: Option<i32>)
    ensures
        r == spec_env_fps(*v),
{
    match v {
        Some(s) => match parse_i32(trim(s.as_str())) {
            Some(n) => if n > 0 { Some(n) } else { None },
            None => None,
        },
        None => None,
    }
}

/// Load the settings from what was read (see `spec_load`).
pub fn load(prev: &Settings, raw: &RawSettings, env: &EnvOverrides) -> (r: Settings)
    ensures
        r == spec_load(*prev, raw, env),
{
    let renderer_text = get_string(raw.renderer.buf.as_slice(), raw.renderer.n, "auto");
    let (renderer, auto_renderer) = get_renderer(renderer_text.as_str(), "auto");
    let tfps = int_key(raw.target_fps, 0);
    let mut draw_fps = int_key(raw.draw_fps, if prev.draw_fps { 1 } else { 0 }) != 0;
    let mut target_fps = if tfps > 0 { tfps } else { 0 };
    let swap_interval = if bool_key(&raw.vsync, false) { 1 } else { 0 };
    let fixed_text = get_string(raw.fixed_output.buf.as_slice(), raw.fixed_output.n, "stretch");
    let fixed_output = get_fixed_output(fixed_text.as_str());
    if let Some(v) = &env.draw_fps {
        if get_bool(v.as_str()) {
            draw_fps = true;
        }
    }
    if let Some(n) = env_fps(&env.target_fps) {
        target_fps = n;
    }
    Settings {
        maintain_aspect_ratio: bool_key(&raw.maintain_aspect_ratio, prev.maintain_aspect_ratio),
        windowboxing: bool_key(&raw.windowboxing, prev.windowboxing),
        stretch_to_fullscreen: bool_key(&raw.stretch_to_fullscreen, prev.stretch_to_fullscreen),
        stretch_to_width: int_key(raw.stretch_to_width, prev.stretch_to_width),
        stretch_to_height: int_key(raw.stretch_to_height, prev.stretch_to_height),
        draw_fps,
        renderer,
        auto_renderer,
        primary_surface2tex: bool_key(&raw.primary_surface2tex, prev.primary_surface2tex),
        gl_finish: bool_key(&raw.gl_finish, prev.gl_finish),
        convert_on_gpu: bool_key(&raw.convert_on_gpu, true),
        target_fps,
        swap_interval,
        single_proc_affinity: bool_key(&raw.single_proc_affinity, true),
        edge_timeout_ms: int_key(raw.monitor_edge_timer, prev.edge_timeout_ms),
        rgb555: bool_key(&raw.rgb555, false),
        gl_fence_sync: bool_key(&raw.gl_fence_sync, prev.gl_fence_sync),
        fixed_output,
    }
}

/// The process and system affinity masks recorded after loading: those
/// queried (the previous ones when the query failed), or none once the
/// process is pinned to a single processor.
pub fn apply_affinity(queried: Option<(usize, usize)>, single: bool, prev: (usize, usize)) -> (r: (usize, usize))
    ensures
        r == (if single { (0usize, 0usize) } else {
            match queried { Some(q) => q, None => prev }
        }),
{
    if single {
        (0, 0)
    } else {
        match queried {
            Some(q) => q,
            None => prev,
        }
    }
}


/// `s` without trailing backslashes.
pub open spec fn trim_backslashes(s: Seq<char>) -> Seq<char>
    decreases s.len(),
{
    if s.len() > 0 && s.last() == '\\' { trim_backslashes(s.drop_last()) } else { s }
}

/// The path of file `name` in directory `dir`: the directory without
/// trailing backslashes, a backslash, the name.
pub fn join_path(dir: &str, name: &str) -> (r: String)
    ensures
        r@ == trim_backslashes(dir@) + "\\"@ + name@,
{
    let mut j = dir.unicode_len();
    proof { assert(dir@.subrange(0, j as int) =~= dir@); }
    while j > 0 && dir.get_char(j - 1) == '\\'
        invariant
            j <= dir@.len(),
            trim_backslashes(dir@) == trim_backslashes(dir@.subrange(0, j as int)),
        decreases j,
    {
        proof {
            let t = dir@.subrange(0, j as int);
            assert(t.drop_last() =~= dir@.subrange(0, j - 1));
        }
        j = j - 1;
    }
    let head = dir.substring_char(0, j);
    let s = head.to_string();
    let s = s.concat("\\");
    s.concat(name)
}

/// Index of the last path separator (a backslash or `/`) among the first `i`
/// characters of `s`, -1 when there is none.
pub open spec fn last_sep(s: Seq<char>, i: int) -> int
    decreases i,
{
    if i <= 0 {
        -1
    } else if s[i - 1] == '\\' || s[i - 1] == '/' {
        i - 1
    } else {
        last_sep(s, i - 1)
    }
}

/// The directory part of a full file path: the text before its last
/// separator; none when it has no separator.
pub open spec fn spec_parent_dir(path: Seq<char>) -> Option<Seq<char>> {
    let k = last_sep(path, path.len() as int);
    if k < 0 { None } else { Some(path.subrange(0, k)) }
}

proof fn lemma_last_sep_bounds(s: Seq<char>, i: int)
    requires
        0 <= i <= s.len(),
    ensures
        -1 <= last_sep(s, i) < i,
    decreases i,
{
    if i > 0 && !(s[i - 1] == '\\' || s[i - 1] == '/') {
        lemma_last_sep_bounds(s, i - 1);
    }
}

/// The directory of the file at `path` (see `spec_parent_dir`): where the
/// wrapper looks for its settings, from the path of its own module.
pub fn parent_dir(path: &str) -> (r: Option<String>)
    ensures
        r is None <==> spec_parent_dir(path@) is None,
        r matches Some(d) ==> spec_parent_dir(path@) == Some(d@),
{
    let mut j = path.unicode_len();
    while j > 0 && path.get_char(j - 1) != '\\' && path.get_char(j - 1) != '/'
        invariant
            j <= path@.len(),
            last_sep(path@, path@.len() as int) == last_sep(path@, j as int),
        decreases j,
    {
        j = j - 1;
    }
    if j == 0 {
        None
    } else {
        proof { lemma_last_sep_bounds(path@, j as int); }
        Some(path.substring_char(0, j - 1).to_string())
    }
}

/// The settings file chosen among candidates, from `i` on: the first that
/// exists, else `rs-ddraw.ini`.
pub open spec fn spec_pick_config(candidates: Seq<String>, exists: Seq<bool>, i: int) -> Seq<char>
    decreases candidates.len() - i,
{
    if i < 0 || i >= candidates.len() {
        "rs-ddraw.ini"@
    } else if exists[i] {
        candidates[i]@
    } else {
        spec_pick_config(candidates, exists, i + 1)
    }
}

/// The settings file used: the first of `candidates` that exists
/// (`exists[i]` tells whether `candidates[i]` does), else `rs-ddraw.ini`,
/// whose absence makes every read yield its default.
pub fn pick_config(candidates: &[String], exists: &[bool]) -> (r: String)
    requires
        candidates@.len() == exists@.len(),
    ensures
        r@ == spec_pick_config(candidates@, exists@, 0),
{
    let mut i: usize = 0;
    while i < candidates.len()
        invariant
            i <= candidates@.len(),
            candidates@.len() == exists@.len(),
            spec_pick_config(candidates@, exists@, 0) == spec_pick_config(candidates@, exists@, i as int),
        decreases candidates@.len() - i,
    {
        if exists[i] {
            return candidates[i].as_str().to_string();
        }
        i = i + 1;
    }
    "rs-ddraw.ini".to_string()
}

/// The settings files looked for, in order: `rs-ddraw.ini` then
/// `ddraw.ini` in the wrapper's own directory (when known), then both in
/// the working directory. When none exists, `rs-ddraw.ini` is used, which
/// yields every default.
pub fn config_candidates(module_dir: Option<&str>) -> (r: Vec<String>)
    ensures
        module_dir is Some ==> r@.len() == 4 && r@[0]@ == trim_backslashes(module_dir->0@) + "\\"@ + "rs-ddraw.ini"@
            && r@[1]@ == trim_backslashes(module_dir->0@) + "\\"@ + "ddraw.ini"@
            && r@[2]@ == "rs-ddraw.ini"@ && r@[3]@ == "ddraw.ini"@,
        module_dir is None ==> r@.len() == 2 && r@[0]@ == "rs-ddraw.ini"@ && r@[1]@ == "ddraw.ini"@,
{
    let mut r: Vec<String> = Vec::new();
    if let Some(dir) = module_dir {
        r.push(join_path(dir, "rs-ddraw.ini"));
        r.push(join_path(dir, "ddraw.ini"));
    }
    r.push("rs-ddraw.ini".to_string());
    r.push("ddraw.ini".to_string());
    r
}


/// The environment wins over the settings file: a positive frame rate set
/// there is the target, and a frame counter switched on there is shown
/// whatever the file says. The target frame rate is never negative.
pub proof fn law_environment_overrides_file(prev: Settings, raw: &RawSettings, env: &EnvOverrides)
    ensures
        spec_env_fps(env.target_fps) matches Some(n) ==> spec_load(prev, raw, env).target_fps == n,
        (env.draw_fps matches Some(v) && spec_get_bool(v@)) ==> spec_load(prev, raw, env).draw_fps,
        spec_load(prev, raw, env).target_fps >= 0,
{
}


/// Whether the text a settings read returned means "on" ("yes", "true" or
/// "1", any case, white space ignored).
pub open spec fn text_is_on(t: ProfileText) -> bool {
    spec_get_bool(spec_get_string(t.buf@, t.n, Seq::empty()))
}

/// Every key read from the settings file decides its setting, whatever
/// the setting was before: a boolean key found in the file (a read that
/// returned text) is on exactly when its text means "on", an integer key
/// found there gives its value. A key not found keeps the previous
/// setting, or its fixed default (GPU conversion and single-processor
/// affinity on, vsync and RGB555 off).
pub proof fn law_keys_decide_settings(prev: Settings, raw: &RawSettings, env: &EnvOverrides)
    ensures
        ({
            let s = spec_load(prev, raw, env);
            &&& s.maintain_aspect_ratio == (if raw.maintain_aspect_ratio.n > 0 { text_is_on(raw.maintain_aspect_ratio) } else { prev.maintain_aspect_ratio })
            &&& s.windowboxing == (if raw.windowboxing.n > 0 { text_is_on(raw.windowboxing) } else { prev.windowboxing })
            &&& s.stretch_to_fullscreen == (if raw.stretch_to_fullscreen.n > 0 { text_is_on(raw.stretch_to_fullscreen) } else { prev.stretch_to_fullscreen })
            &&& s.primary_surface2tex == (if raw.primary_surface2tex.n > 0 { text_is_on(raw.primary_surface2tex) } else { prev.primary_surface2tex })
            &&& s.gl_finish == (if raw.gl_finish.n > 0 { text_is_on(raw.gl_finish) } else { prev.gl_finish })
            &&& s.gl_fence_sync == (if raw.gl_fence_sync.n > 0 { text_is_on(raw.gl_fence_sync) } else { prev.gl_fence_sync })
            &&& s.convert_on_gpu == (if raw.convert_on_gpu.n > 0 { text_is_on(raw.convert_on_gpu) } else { true })
            &&& s.single_proc_affinity == (if raw.single_proc_affinity.n > 0 { text_is_on(raw.single_proc_affinity) } else { true })
            &&& s.rgb555 == (if raw.rgb555.n > 0 { text_is_on(raw.rgb555) } else { false })
            &&& s.swap_interval == (if raw.vsync.n > 0 && text_is_on(raw.vsync) { 1i32 } else { 0i32 })
            &&& s.stretch_to_width == (match raw.stretch_to_width { Some(v) => v, None => prev.stretch_to_width })
            &&& s.stretch_to_height == (match raw.stretch_to_height { Some(v) => v, None => prev.stretch_to_height })
            &&& s.edge_timeout_ms == (match raw.monitor_edge_timer { Some(v) => v, None => prev.edge_timeout_ms })
        }),
{
    assert(spec_get_bool("Yes"@)) by {
        reveal_strlit("Yes");
        reveal_strlit("yes");
        let t = "Yes"@;
        assert(t.len() == 3 && t[0] == 'Y' && t[2] == 's');
        assert(crate::text::trim_start(t) == t);
        assert(crate::text::trim_end(t) == t);
        assert(spec_trim(t) == t);
        assert(spec_eq_ignore(t, "yes"@));
    }
    assert(!spec_get_bool("No"@)) by {
        reveal_strlit("No");
        reveal_strlit("yes");
        reveal_strlit("true");
        reveal_strlit("1");
        let t = "No"@;
        assert(t.len() == 2 && t[0] == 'N' && t[1] == 'o');
        assert(crate::text::trim_start(t) == t);
        assert(crate::text::trim_end(t) == t);
        assert(spec_trim(t) == t);
    }
}

} // verus!
