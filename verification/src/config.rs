//! Generator settings and the path conventions derived from them.
use vstd::prelude::*;

use crate::case::{snake_case, to_snake_case};
use crate::ir::{copy_opt, copy_strings, opt_view, strs};
use crate::text::{
    after_last, after_last_lit, chars_of, eq_lit, push_chars, push_str, rfind, rfind_lit,
    slice_vec, str_eq, string_of, trim_end_char, trim_end_char_vec,
};

verus! {

/// Prefix of every generated C ABI symbol.
pub const WRAPPER_PREFIX: &'static str = "cgowrap";

#[derive(Debug, Clone)]
pub struct Config {
    pub version: Option<u32>,
    pub input: InputConfig,
    pub output: OutputConfig,
}

#[derive(Debug, Clone)]
pub struct InputConfig {
    pub dir: Option<String>,
    pub headers: Vec<String>,
    pub clang_args: Vec<String>,
    pub ldflags: Vec<String>,
    pub owner: Vec<String>,
}

#[derive(Debug, Clone)]
pub struct OutputConfig {
    pub dir: String,
    pub header: String,
    pub source: String,
    pub ir: String,
    pub go_version: String,
}

pub struct InputConfigV {
    pub dir: Option<Seq<char>>,
    pub headers: Seq<Seq<char>>,
    pub clang_args: Seq<Seq<char>>,
    pub ldflags: Seq<Seq<char>>,
    pub owner: Seq<Seq<char>>,
}

pub struct OutputConfigV {
    pub dir: Seq<char>,
    pub header: Seq<char>,
    pub source: Seq<char>,
    pub ir: Seq<char>,
    pub go_version: Seq<char>,
}

pub struct ConfigV {
    pub version: Option<u32>,
    pub input: InputConfigV,
    pub output: OutputConfigV,
}

impl View for InputConfig {
    type V = InputConfigV;

    open spec fn view(&self) -> InputConfigV {
        InputConfigV {
            dir: opt_view(self.dir),
            headers: strs(self.headers@),
            clang_args: strs(self.clang_args@),
            ldflags: strs(self.ldflags@),
            owner: strs(self.owner@),
        }
    }
}

impl View for OutputConfig {
    type V = OutputConfigV;

    open spec fn view(&self) -> OutputConfigV {
        OutputConfigV {
            dir: self.dir@,
            header: self.header@,
            source: self.source@,
            ir: self.ir@,
            go_version: self.go_version@,
        }
    }
}

impl View for Config {
    type V = ConfigV;

    open spec fn view(&self) -> ConfigV {
        ConfigV { version: self.version, input: self.input@, output: self.output@ }
    }
}

/// The output settings used when the configuration names none.
pub open spec fn default_output() -> OutputConfigV {
    OutputConfigV {
        dir: "gen"@,
        header: "wrapper.h"@,
        source: "wrapper.cpp"@,
        ir: "wrapper.ir.yaml"@,
        go_version: "1.26"@,
    }
}

fn default_output_dir() -> (r: String)
    ensures
        r@ == default_output().dir,
{
    String::from_str("gen")
}

fn default_header_name() -> (r: String)
    ensures
        r@ == default_output().header,
{
    String::from_str("wrapper.h")
}

fn default_source_name() -> (r: String)
    ensures
        r@ == default_output().source,
{
    String::from_str("wrapper.cpp")
}

fn default_ir_name() -> (r: String)
    ensures
        r@ == default_output().ir,
{
    String::from_str("wrapper.ir.yaml")
}

fn default_go_version() -> (r: String)
    ensures
        r@ == default_output().go_version,
{
    String::from_str("1.26")
}

impl Default for OutputConfig {
    fn default() -> (r: Self)
        ensures
            r@ == default_output(),
    {
        OutputConfig {
            dir: default_output_dir(),
            header: default_header_name(),
            source: default_source_name(),
            ir: default_ir_name(),
            go_version: default_go_version(),
        }
    }
}

impl Default for InputConfig {
    fn default() -> (r: Self)
        ensures
            r@.dir is None,
            r@.headers.len() == 0,
            r@.clang_args.len() == 0,
            r@.ldflags.len() == 0,
            r@.owner.len() == 0,
    {
        let r = InputConfig {
            dir: None,
            headers: Vec::new(),
            clang_args: Vec::new(),
            ldflags: Vec::new(),
            owner: Vec::new(),
        };
        assert(r@.clang_args =~= Seq::<Seq<char>>::empty());
        assert(r@.headers =~= Seq::<Seq<char>>::empty());
        r
    }
}

impl Default for Config {
    fn default() -> (r: Self)
        ensures
            r@.version is None,
            r@.input.dir is None,
            r@.input.headers.len() == 0,
            r@.input.clang_args.len() == 0,
            r@.input.ldflags.len() == 0,
            r@.input.owner.len() == 0,
            r@.output == default_output(),
    {
        Config { version: None, input: InputConfig::default(), output: OutputConfig::default() }
    }
}

impl InputConfig {
    pub fn copy(&self) -> (r: InputConfig)
        ensures
            r@ == self@,
    {
        InputConfig {
            dir: copy_opt(&self.dir),
            headers: copy_strings(&self.headers),
            clang_args: copy_strings(&self.clang_args),
            ldflags: copy_strings(&self.ldflags),
            owner: copy_strings(&self.owner),
        }
    }
}

/// What is wrong with the input selection, if anything: a directory to scan or an exact
/// list of headers is needed, and the two cannot be combined.
pub open spec fn input_selection_problem(input: InputConfigV) -> Option<Seq<char>> {
    if input.dir is Some && input.headers.len() > 0 {
        Some("input.headers cannot be combined with input.dir"@)
    } else if input.dir is None && input.headers.len() == 0 {
        Some("config.input.dir or config.input.headers must be set"@)
    } else {
        None
    }
}

impl InputConfig {
    /// The error a configuration with this input selection is refused with, if any.
    pub fn selection_error(&self) -> (r: Option<String>)
        ensures
            opt_view(r) == input_selection_problem(self@),
    {
        if self.dir.is_some() && self.headers.len() > 0 {
            Some(String::from_str("input.headers cannot be combined with input.dir"))
        } else if self.dir.is_none() && self.headers.len() == 0 {
            Some(String::from_str("config.input.dir or config.input.headers must be set"))
        } else {
            None
        }
    }
}

impl OutputConfig {
    pub fn copy(&self) -> (r: OutputConfig)
        ensures
            r@ == self@,
    {
        OutputConfig {
            dir: self.dir.clone(),
            header: self.header.clone(),
            source: self.source.clone(),
            ir: self.ir.clone(),
            go_version: self.go_version.clone(),
        }
    }
}

// ---------------------------------------------------------------------------
// Paths, as `std::path::Path` reads a `/`-separated string
// ---------------------------------------------------------------------------

pub proof fn lemma_trim_end_char_len(s: Seq<char>, c: char)
    ensures
        trim_end_char(s, c).len() <= s.len(),
        trim_end_char(s, c) == s.take(trim_end_char(s, c).len() as int),
    decreases s.len(),
{
    if s.len() > 0 && s.last() == c {
        lemma_trim_end_char_len(s.drop_last(), c);
        assert(s.drop_last().take(trim_end_char(s, c).len() as int) =~= s.take(
            trim_end_char(s, c).len() as int,
        ));
    } else {
        assert(s.take(s.len() as int) =~= s);
    }
}

/// `Path::file_name`: the last normal component, skipping `.` components; none for
/// an empty path, a root, or a path ending in `..`.
pub open spec fn file_name(p: Seq<char>) -> Option<Seq<char>>
    decreases p.len(),
{
    let q = trim_end_char(p, '/');
    if q.len() == 0 {
        None
    } else {
        let last = after_last(q, "/"@);
        if last == "."@ {
            if q.len() <= 1 {
                None
            } else {
                proof {
                    lemma_trim_end_char_len(p, '/');
                }
                file_name(q.take(q.len() - 1))
            }
        } else if last == ".."@ {
            None
        } else {
            Some(last)
        }
    }
}

/// The stem of a file name: all of it before the last `.`, unless that dot leads.
pub open spec fn stem_of(n: Seq<char>) -> Seq<char> {
    match rfind(n, "."@) {
        Some(i) => if i > 0 {
            n.take(i)
        } else {
            n
        },
        None => n,
    }
}

/// `Path::file_stem`
pub open spec fn file_stem(p: Seq<char>) -> Option<Seq<char>> {
    match file_name(p) {
        Some(n) => Some(stem_of(n)),
        None => None,
    }
}

/// `Path::extension`
pub open spec fn extension(p: Seq<char>) -> Option<Seq<char>> {
    match file_name(p) {
        Some(n) => match rfind(n, "."@) {
            Some(i) => if i > 0 {
                Some(n.skip(i + 1))
            } else {
                None
            },
            None => None,
        },
        None => None,
    }
}

pub fn file_name_of(p: &[char]) -> (r: Option<Vec<char>>)
    ensures
        match file_name(p@) {
            Some(n) => r is Some && r->0@ == n,
            None => r is None,
        },
    decreases p.len(),
{
    let q = trim_end_char_vec(p, '/');
    proof {
        lemma_trim_end_char_len(p@, '/');
    }
    if q.len() == 0 {
        return None;
    }
    let last = after_last_lit(q.as_slice(), "/");
    if eq_lit(last.as_slice(), ".") {
        if q.len() <= 1 {
            None
        } else {
            let shorter = slice_vec(q.as_slice(), 0, q.len() - 1);
            assert(shorter@ =~= q@.take(q@.len() - 1));
            file_name_of(shorter.as_slice())
        }
    } else if eq_lit(last.as_slice(), "..") {
        None
    } else {
        Some(last)
    }
}

pub fn stem_of_vec(n: &[char]) -> (r: Vec<char>)
    ensures
        r@ == stem_of(n@),
{
    proof {
        crate::text::lemma_rfind_bounds(n@, "."@);
    }
    match rfind_lit(n, ".") {
        Some(i) => if i > 0 {
            slice_vec(n, 0, i)
        } else {
            slice_vec(n, 0, n.len())
        },
        None => slice_vec(n, 0, n.len()),
    }
}

pub fn file_stem_of(p: &[char]) -> (r: Option<Vec<char>>)
    ensures
        match file_stem(p@) {
            Some(n) => r is Some && r->0@ == n,
            None => r is None,
        },
{
    match file_name_of(p) {
        Some(n) => Some(stem_of_vec(n.as_slice())),
        None => None,
    }
}

pub fn extension_of(p: &[char]) -> (r: Option<Vec<char>>)
    ensures
        match extension(p@) {
            Some(n) => r is Some && r->0@ == n,
            None => r is None,
        },
{
    match file_name_of(p) {
        Some(n) => {
            proof {
                reveal_strlit(".");
                crate::text::lemma_rfind_bounds(n@, "."@);
            }
            match rfind_lit(n.as_slice(), ".") {
                Some(i) => if i > 0 {
                    assert(crate::text::matches_at(n@, "."@, i as int));
                    assert(i + 1 <= n.len());
                    Some(slice_vec(n.as_slice(), i + 1, n.len()))
                } else {
                    None
                },
                None => None,
            }
        },
        None => None,
    }
}

/// Header files are recognised by their extension.
pub open spec fn is_header_path(p: Seq<char>) -> bool {
    match extension(p) {
        Some(e) => e == "h"@ || e == "hh"@ || e == "hpp"@ || e == "hxx"@,
        None => false,
    }
}

pub fn is_supported_header_path(path: &str) -> (b: bool)
    ensures
        b == is_header_path(path@),
{
    let p = chars_of(path);
    match extension_of(p.as_slice()) {
        Some(e) => {
            let e = e.as_slice();
            eq_lit(e, "h") || eq_lit(e, "hh") || eq_lit(e, "hpp") || eq_lit(e, "hxx")
        },
        None => false,
    }
}

/// Appends `value` unless an equal path is already listed.
pub fn push_unique_path(paths: &mut Vec<String>, value: String)
    ensures
        strs(old(paths)@).contains(value@) ==> final(paths)@ == old(paths)@,
        !strs(old(paths)@).contains(value@) ==> final(paths)@ == old(paths)@.push(value),
{
    let v = chars_of(value.as_str());
    if !crate::ir::contains_str(paths, v.as_slice()) {
        paths.push(value);
    }
}

// ---------------------------------------------------------------------------
// Output names
// ---------------------------------------------------------------------------

pub open spec fn uses_default_names(o: OutputConfigV) -> bool {
    o.header == default_output().header && o.source == default_output().source && o.ir
        == default_output().ir
}

/// The Go file name: the header's stem with `.go`.
pub open spec fn go_file(header: Seq<char>) -> Seq<char> {
    let stem = match file_stem(header) {
        Some(s) => if s.len() > 0 {
            s
        } else {
            "wrapper"@
        },
        None => "wrapper"@,
    };
    stem + ".go"@
}

/// The output names after scoping to `header`: `<snake stem>_wrapper.{h,cpp,ir.yaml}` when
/// the configured names are the defaults and the header has a stem.
pub open spec fn scoped_output(o: OutputConfigV, header: Seq<char>) -> OutputConfigV {
    if uses_default_names(o) && file_stem(header) is Some {
        let base = snake_case(file_stem(header)->0) + "_wrapper"@;
        OutputConfigV {
            header: base + ".h"@,
            source: base + ".cpp"@,
            ir: base + ".ir.yaml"@,
            ..o
        }
    } else {
        o
    }
}

impl Config {
    pub fn copy(&self) -> (r: Config)
        ensures
            r@ == self@,
    {
        Config { version: self.version, input: self.input.copy(), output: self.output.copy() }
    }

    pub fn uses_default_output_names(&self) -> (b: bool)
        ensures
            b == uses_default_names(self.output@),
    {
        str_eq(self.output.header.as_str(), "wrapper.h") && str_eq(
            self.output.source.as_str(),
            "wrapper.cpp",
        ) && str_eq(self.output.ir.as_str(), "wrapper.ir.yaml")
    }

    pub fn go_filename(&self, _value: &str) -> (r: String)
        ensures
            r@ == go_file(self.output.header@),
    {
        let h = chars_of(self.output.header.as_str());
        let mut out = match file_stem_of(h.as_slice()) {
            Some(s) => if s.len() > 0 {
                string_of(s.as_slice())
            } else {
                String::from_str("wrapper")
            },
            None => String::from_str("wrapper"),
        };
        push_str(&mut out, ".go");
        out
    }

    pub fn output_dir(&self) -> (r: String)
        ensures
            r@ == self.output.dir@,
    {
        self.output.dir.clone()
    }

    pub fn generated_header_include(&self, header: &str) -> (r: String)
        ensures
            r@ == header@,
    {
        String::from_str(header)
    }

    /// A copy whose output names follow `header` (see `scoped_output`).
    pub fn scoped_to_header(&self, header: &str) -> (r: Config)
        ensures
            r@.version == self@.version,
            r@.input == self@.input,
            r@.output == scoped_output(self@.output, header@),
    {
        let mut scoped = self.copy();
        scoped.apply_output_defaults_for_header(header);
        scoped
    }

    pub fn apply_output_defaults_for_header(&mut self, header: &str)
        ensures
            final(self)@.version == old(self)@.version,
            final(self)@.input == old(self)@.input,
            final(self)@.output == scoped_output(old(self)@.output, header@),
    {
        if !self.uses_default_output_names() {
            return;
        }
        let h = chars_of(header);
        let stem = match file_stem_of(h.as_slice()) {
            Some(s) => s,
            None => return,
        };
        let mut base = to_snake_case(string_of(stem.as_slice()).as_str());
        push_str(&mut base, "_wrapper");
        let mut hd = base.clone();
        push_str(&mut hd, ".h");
        let mut src = base.clone();
        push_str(&mut src, ".cpp");
        let mut ir = base.clone();
        push_str(&mut ir, ".ir.yaml");
        self.output.header = hd;
        self.output.source = src;
        self.output.ir = ir;
    }
}

} // verus!
