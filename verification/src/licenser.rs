//! The batch engine: normalizing the configured header, classifying files
//! by their probed prefix, and computing the content written back when the
//! header is applied or removed.
//!
//! All file input and output is the caller's task.  The caller reads
//! [`Licenser::probe_len`] bytes from the front of each file, decodes them
//! as UTF-8, and hands the outcomes in as [`FileProbe`] values, one per
//! configured path and in the same order.  A file shorter than the probe is
//! `FileProbe::Short` and never carries the header; a read or decode
//! failure is the caller's to report and aborts the batch.  The selection
//! functions then say which files to rewrite, and [`Licenser::apply_header`]
//! and [`remove_header`] compute the full new content for one file.

use crate::config::Config;
use crate::pattern::{
    compile_pattern, expand_template, expand_year, lemma_expand_identity, lemma_lit_matches_self,
    placeholder_free, remove_first_header, strict_match_len, strict_matches, HeaderPattern,
};
use vstd::prelude::*;
use vstd::utf8::encode_utf8;

verus! {

/// The header with every year placeholder replaced by a four-digit
/// stand-in, used only to size the probe read from the front of a file.
pub fn replace_header_placeholder(header: &str) -> (r: String)
    ensures
        r@ == expand_year(header@),
{
    expand_template(header)
}

/// The text with a final `\n` guaranteed: unchanged when it already ends
/// with one, with a single `\n` appended otherwise.
pub open spec fn spec_with_trailing_newline(s: Seq<char>) -> Seq<char> {
    if s.len() > 0 && s[s.len() - 1] == '\n' {
        s
    } else {
        s + seq!['\n']
    }
}

/// Appends a final `\n` to the text unless it already ends with one.
pub fn add_carriage_return(input: String) -> (r: String)
    requires
        input@.len() > 0,
    ensures
        r@ == spec_with_trailing_newline(input@),
{
    let n = input.as_str().unicode_len();
    let last = input.as_str().get_char(n - 1);
    if last == '\n' {
        input
    } else {
        let mut out = input;
        proof {
            reveal_strlit("\n");
        }
        out.append("\n");
        proof {
            assert(out@ =~= spec_with_trailing_newline(out@.take(out@.len() - 1)));
        }
        out
    }
}

/// What probing the front of one file produced: the file was shorter than
/// the probe length, or the decoded text of the probed bytes.
pub enum FileProbe {
    Short,
    Content(String),
}

/// Holds when a probed file carries the header: a short file never does; a
/// probed prefix does when the strict pattern of template `t` matches it.
pub open spec fn probe_has_header(t: Seq<char>, p: FileProbe) -> bool {
    match p {
        FileProbe::Short => false,
        FileProbe::Content(s) => strict_matches(t, s@),
    }
}

/// The paths, in input order, whose probe outcome classifies the file as
/// having the header (`want == true`) or as missing it (`want == false`).
pub open spec fn spec_selected(
    t: Seq<char>,
    paths: Seq<String>,
    probes: Seq<FileProbe>,
    want: bool,
) -> Seq<String>
    decreases paths.len(),
{
    if paths.len() == 0 {
        Seq::empty()
    } else if probe_has_header(t, probes[0]) == want {
        seq![paths[0]] + spec_selected(t, paths.drop_first(), probes.drop_first(), want)
    } else {
        spec_selected(t, paths.drop_first(), probes.drop_first(), want)
    }
}

/// One batch run over a fixed list of file paths, with the configured
/// header normalized once and its pattern compiled once.
pub struct Licenser {
    file_paths: Vec<String>,
    cfg: Config,
    license_pattern: HeaderPattern,
    header: String,
}

impl Licenser {
    /// The file paths this batch works on, in input order.
    pub closed spec fn spec_paths(&self) -> Seq<String> {
        self.file_paths@
    }

    /// The configured template the matching pattern was compiled from.
    pub closed spec fn spec_template(&self) -> Seq<char> {
        self.license_pattern.template_view()
    }

    /// The normalized header text written into files, ending in `\n`.
    pub closed spec fn spec_header(&self) -> Seq<char> {
        self.header@
    }

    /// Builds a batch run: normalizes the configured header text and
    /// compiles the matching pattern from the raw template.
    pub fn new(file_paths: Vec<String>, cfg: Config) -> (r: Licenser)
        requires
            cfg.headers@.len() > 0,
        ensures
            r.spec_paths() == file_paths@,
            r.spec_template() == cfg.headers@,
            r.spec_header() == spec_with_trailing_newline(cfg.headers@),
    {
        let header = add_carriage_return(cfg.headers.clone());
        let license_pattern = compile_pattern(cfg.headers.as_str());
        Licenser { file_paths, cfg, license_pattern, header }
    }

    /// The compiled pattern of this batch, for removing headers file by
    /// file.
    pub fn license_pattern(&self) -> (p: &HeaderPattern)
        ensures
            p.template_view() == self.spec_template(),
    {
        &self.license_pattern
    }

    /// The number of bytes to read from the front of each file: the byte
    /// length of the normalized header with the year placeholder expanded.
    pub fn probe_len(&self) -> (n: usize)
        ensures
            n == encode_utf8(expand_year(self.spec_header())).len() as usize,
    {
        let expanded = expand_template(self.header.as_str());
        expanded.as_str().len()
    }

    /// Decides whether one probed file carries the header.  A file shorter
    /// than the probe never does.
    pub fn has_header(&self, probe: &FileProbe) -> (b: bool)
        ensures
            b == probe_has_header(self.spec_template(), *probe),
            probe is Short ==> !b,
    {
        match probe {
            FileProbe::Short => false,
            FileProbe::Content(s) => self.license_pattern.is_match(s.as_str()),
        }
    }

    /// The paths whose probe classifies them as `want`, in input order.
    fn select_files(&self, probes: &Vec<FileProbe>, want: bool) -> (out: Vec<String>)
        requires
            probes@.len() == self.spec_paths().len(),
        ensures
            out@ == spec_selected(self.spec_template(), self.spec_paths(), probes@, want),
    {
        let ghost t = self.spec_template();
        let ghost paths = self.spec_paths();
        let mut out: Vec<String> = Vec::new();
        let n = self.file_paths.len();
        let mut i: usize = 0;
        proof {
            assert(paths.skip(0) =~= paths);
            assert(probes@.skip(0) =~= probes@);
        }
        while i < n
            invariant
                i <= n,
                n == paths.len(),
                probes@.len() == n,
                paths == self.spec_paths(),
                t == self.spec_template(),
                spec_selected(t, paths, probes@, want) == out@ + spec_selected(
                    t,
                    paths.skip(i as int),
                    probes@.skip(i as int),
                    want,
                ),
            decreases n - i,
        {
            let has = self.has_header(&probes[i]);
            proof {
                assert(paths.skip(i as int)[0] == paths[i as int]);
                assert(probes@.skip(i as int)[0] == probes@[i as int]);
                assert(paths.skip(i as int).drop_first() =~= paths.skip(i as int + 1));
                assert(probes@.skip(i as int).drop_first() =~= probes@.skip(i as int + 1));
            }
            if has == want {
                out.push(self.file_paths[i].clone());
                proof {
                    assert(spec_selected(t, paths, probes@, want) =~= out@ + spec_selected(
                        t,
                        paths.skip(i as int + 1),
                        probes@.skip(i as int + 1),
                        want,
                    ));
                }
            } else {
                proof {
                    assert(spec_selected(t, paths, probes@, want) =~= out@ + spec_selected(
                        t,
                        paths.skip(i as int + 1),
                        probes@.skip(i as int + 1),
                        want,
                    ));
                }
            }
            i = i + 1;
        }
        proof {
            assert(paths.skip(n as int) =~= Seq::<String>::empty());
            assert(out@ =~= spec_selected(t, paths, probes@, want));
        }
        out
    }

    /// The paths of the files missing the header, in input order.  These
    /// are the paths `check` reports, and the files `apply` rewrites.
    pub fn check_files_license(&self, probes: &Vec<FileProbe>) -> (missing: Vec<String>)
        requires
            probes@.len() == self.spec_paths().len(),
        ensures
            missing@ == spec_selected(self.spec_template(), self.spec_paths(), probes@, false),
    {
        self.select_files(probes, false)
    }

    /// The paths of the files to prepend the header to: exactly the files
    /// missing it.  Files already carrying the header are left untouched.
    pub fn apply_files_license(&self, probes: &Vec<FileProbe>) -> (to_add: Vec<String>)
        requires
            probes@.len() == self.spec_paths().len(),
        ensures
            to_add@ == spec_selected(self.spec_template(), self.spec_paths(), probes@, false),
    {
        self.select_files(probes, false)
    }

    /// The paths of the files to strip the header from: exactly the files
    /// carrying it.  Files without the header are left untouched.
    pub fn remove_files_license(&self, probes: &Vec<FileProbe>) -> (to_remove: Vec<String>)
        requires
            probes@.len() == self.spec_paths().len(),
        ensures
            to_remove@ == spec_selected(self.spec_template(), self.spec_paths(), probes@, true),
    {
        self.select_files(probes, true)
    }

    /// The new content of a file the header is applied to: the normalized
    /// header, its placeholder left literal, followed by the old content
    /// unchanged.
    pub fn apply_header(&self, content: &str) -> (r: String)
        ensures
            r@ == self.spec_header() + content@,
    {
        let mut out = self.header.clone();
        out.append(content);
        out
    }
}

/// Law: applying the header and then removing it restores the content, for
/// every content and every placeholder-free template that does not already
/// end in a line terminator.  Applying prepends the normalized header
/// (the template plus a final `\n`), and the strict pattern compiled from
/// the same template matches exactly that prefix, so removal strips exactly
/// what application added.
pub proof fn lemma_apply_then_remove(t: Seq<char>, c: Seq<char>)
    requires
        t.len() > 0,
        t[t.len() - 1] != '\n',
        placeholder_free(t),
    ensures
        remove_first_header(t, spec_with_trailing_newline(t) + c) == c,
{
    let applied = spec_with_trailing_newline(t) + c;
    assert(spec_with_trailing_newline(t) =~= t + seq!['\n']);
    lemma_lit_matches_self(t, seq!['\n'] + c);
    assert(applied =~= t + (seq!['\n'] + c));
    lemma_expand_identity(t);
    let n = t.len() as int;
    assert(applied[n] == '\n');
    assert(strict_matches(t, applied));
    assert(strict_match_len(t, applied) == n + 1);
    assert(applied.skip(n + 1) =~= c);
}

/// Law: once removal has stripped the header that application added,
/// removing again changes nothing, for every placeholder-free template not
/// already ending in a line terminator and every content that does not
/// itself begin with the header.
pub proof fn lemma_remove_idempotent_after_apply(t: Seq<char>, c: Seq<char>)
    requires
        t.len() > 0,
        t[t.len() - 1] != '\n',
        placeholder_free(t),
        !strict_matches(t, c),
    ensures
        remove_first_header(t, remove_first_header(t, spec_with_trailing_newline(t) + c))
            == remove_first_header(t, spec_with_trailing_newline(t) + c),
{
    lemma_apply_then_remove(t, c);
}

/// The new content of a file the header is removed from: the first strict
/// match of the pattern at the start of the content is stripped, terminator
/// included; content without a leading header is returned unchanged.
pub fn remove_header(pattern: &HeaderPattern, content: &String) -> (r: String)
    ensures
        r@ == remove_first_header(pattern.template_view(), content@),
{
    match pattern.match_len(content.as_str()) {
        Some(m) => {
            let cn = content.as_str().unicode_len();
            proof {
                assert(m <= cn);
            }
            let rest = content.as_str().substring_char(m, cn);
            proof {
                assert(rest@ =~= content@.skip(m as int));
            }
            String::from_str(rest)
        },
        None => content.clone(),
    }
}

} // verus!
