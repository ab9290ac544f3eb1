//! The external converter's command line, and document metadata.
//!
//! A conversion runs the external `asciidoctor` program once per file. The
//! crate assembles the full command line — directories, fixed flags, and
//! the options declared in `book.ron` with their placeholder tokens
//! substituted — and the shell spawns it. Because the converter's embedded
//! mode emits no document header, the crate also extracts the title and
//! `:attribute: value` lines from the source text itself.

use vstd::prelude::*;

use crate::book::BookStructure;
use crate::book::config::{CmdOption, CmdOptions};
use crate::text::{
    chars_to_string, lemma_str_views_push, replace_all, replace_all_spec, str_to_chars,
    str_views,
};
use crate::vfs::FsCatalog;

verus! {

/// Error from a conversion: the file that failed and the converter's own
/// words.
#[derive(Debug, Clone)]
pub enum AdocError {
    /// (source file, stderr text).
    FailedToConvert(String, String),
}

/// Context for running the external converter.
#[derive(Debug, Clone)]
pub struct AdocRunContext {
    /// Source directory.
    pub src_dir: String,
    /// Destination directory.
    pub dst_dir: String,
    /// Converter options, often declared in `book.ron`.
    pub opts: CmdOptions,
    /// Substituted for the `{base_url}` placeholder token.
    pub base_url: String,
}

/// A command for the shell to spawn: program, working directory and
/// arguments, fully assembled.
#[derive(Debug, Clone)]
pub struct AdocCommand {
    pub program: String,
    pub current_dir: String,
    pub args: Vec<String>,
}

/// `arg` with the three placeholder tokens textually substituted, in a
/// fixed order.
pub open spec fn replace_placeholders_spec(
    arg: Seq<char>,
    base_url: Seq<char>,
    src_dir: Seq<char>,
    dst_dir: Seq<char>,
) -> Seq<char> {
    replace_all_spec(
        replace_all_spec(replace_all_spec(arg, "{base_url}"@, base_url), "{src_dir}"@, src_dir),
        "{dst_dir}"@,
        dst_dir,
    )
}

/// The views of one declared option: its name and its arguments.
pub open spec fn opt_view(o: CmdOption) -> (Seq<char>, Seq<Seq<char>>) {
    (o.name@, str_views(o.args@))
}

/// The views of a whole option list.
pub open spec fn opts_views(opts: Seq<CmdOption>) -> Seq<(Seq<char>, Seq<Seq<char>>)> {
    opts.map_values(|o: CmdOption| opt_view(o))
}

/// The command-line words one declared option expands to: the bare name
/// when it has no arguments, else the name repeated before each argument,
/// each argument with its placeholders substituted.
pub open spec fn expand_args_spec(
    name: Seq<char>,
    args: Seq<Seq<char>>,
    acx: AdocRunContext,
) -> Seq<Seq<char>>
    decreases args.len(),
{
    if args.len() == 0 {
        Seq::empty()
    } else {
        seq![name, replace_placeholders_spec(args[0], acx.base_url@, acx.src_dir@, acx.dst_dir@)]
            + expand_args_spec(name, args.drop_first(), acx)
    }
}

/// The command-line words one option contributes.
pub open spec fn expand_opt_spec(o: CmdOption, acx: AdocRunContext) -> Seq<Seq<char>> {
    if o.args@.len() == 0 {
        seq![o.name@]
    } else {
        expand_args_spec(o.name@, str_views(o.args@), acx)
    }
}

/// The command-line words a whole option list contributes, in order.
pub open spec fn expand_opts_spec(opts: Seq<CmdOption>, acx: AdocRunContext) -> Seq<Seq<char>>
    decreases opts.len(),
{
    if opts.len() == 0 {
        Seq::empty()
    } else {
        expand_opt_spec(opts[0], acx) + expand_opts_spec(opts.drop_first(), acx)
    }
}

impl AdocRunContext {
    /// The context of one build: the book's directories, its declared
    /// converter options and its base URL.
    pub fn from_book(book: &BookStructure, dst_dir: &String) -> (r: Self)
        ensures
            r.src_dir@ == book.src_dir_spec(),
            r.dst_dir@ == dst_dir@,
            opts_views(r.opts@) == opts_views(book.book_ron.adoc_opts@),
            r.base_url@ == book.book_ron.base_url@,
    {
        let src_dir = book.src_dir_path();
        Self {
            src_dir,
            dst_dir: dst_dir.clone(),
            opts: clone_opts(&book.book_ron.adoc_opts),
            base_url: book.book_ron.base_url.clone(),
        }
    }

    /// `arg` with `{base_url}`, `{src_dir}` and `{dst_dir}` substituted.
    pub fn replace_placeholder_strings(&self, arg: &String) -> (r: String)
        ensures
            r@ == replace_placeholders_spec(arg@, self.base_url@, self.src_dir@, self.dst_dir@),
    {
        let chars = str_to_chars(arg.as_str());
        let b = str_to_chars(self.base_url.as_str());
        let s = str_to_chars(self.src_dir.as_str());
        let d = str_to_chars(self.dst_dir.as_str());
        let chars = replace_all(&chars, "{base_url}", &b);
        let chars = replace_all(&chars, "{src_dir}", &s);
        let chars = replace_all(&chars, "{dst_dir}", &d);
        chars_to_string(&chars)
    }

    /// Embedded mode: output without header (including the title) and
    /// footer. Turning it on appends the flag; turning it off keeps only
    /// options already named exactly like it.
    pub fn set_embedded_mode(&mut self, b: bool)
        ensures
            b ==> final(self).opts@.len() == old(self).opts@.len() + 1,
            b ==> final(self).opts@.subrange(0, old(self).opts@.len() as int) == old(self).opts@,
            b ==> final(self).opts@.last().name@ == "--embedded"@,
            b ==> final(self).opts@.last().args@.len() == 0,
            !b ==> opts_views(final(self).opts@) == keep_embedded_spec(opts_views(old(self).opts@)),
            final(self).src_dir == old(self).src_dir,
            final(self).dst_dir == old(self).dst_dir,
            final(self).base_url == old(self).base_url,
    {
        if b {
            let ghost pre = self.opts@;
            let name: String = String::from_str("--embedded");
            self.opts.push(CmdOption { name, args: Vec::new() });
            proof {
                assert(self.opts@.subrange(0, pre.len() as int) =~= pre);
            }
        } else {
            let mut kept: Vec<CmdOption> = Vec::new();
            let mut i: usize = 0;
            let ghost all = opts_views(self.opts@);
            proof {
                assert(opts_views(kept@) + keep_embedded_spec(all.skip(0)) =~= keep_embedded_spec(
                    all,
                )) by {
                    assert(all.skip(0) =~= all);
                    assert(opts_views(kept@) =~= Seq::<(Seq<char>, Seq<Seq<char>>)>::empty());
                }
            }
            while i < self.opts.len()
                invariant
                    i <= self.opts@.len(),
                    all == opts_views(self.opts@),
                    opts_views(kept@) + keep_embedded_spec(all.skip(i as int))
                        == keep_embedded_spec(all),
                decreases self.opts@.len() - i,
            {
                let ghost tail = all.skip(i as int);
                proof {
                    assert(tail[0] == all[i as int]);
                    assert(tail.drop_first() =~= all.skip(i + 1));
                }
                let o = &self.opts[i];
                let name_chars = str_to_chars(o.name.as_str());
                let ghost pre = kept@;
                if crate::text::eq_lit(&name_chars, "--embedded") {
                    let copied = copy_opt(o);
                    kept.push(copied);
                    proof {
                        lemma_opts_views_push(pre, kept@.last());
                        assert(opt_view(kept@.last()) == opt_view(self.opts@[i as int]));
                        assert(opts_views(kept@) + keep_embedded_spec(all.skip(i + 1))
                            =~= opts_views(pre) + keep_embedded_spec(tail));
                    }
                } else {
                    proof {
                        assert(opts_views(kept@) + keep_embedded_spec(all.skip(i + 1))
                            =~= opts_views(pre) + keep_embedded_spec(tail));
                    }
                }
                i += 1;
            }
            proof {
                assert(all.skip(i as int) =~= Seq::<(Seq<char>, Seq<Seq<char>>)>::empty());
                assert(opts_views(kept@) + keep_embedded_spec(all.skip(i as int)) =~= opts_views(
                    kept@,
                ));
            }
            self.opts = kept;
        }
    }

    /// Appends the directory settings and the declared options onto a
    /// command: the working directory and `-B` point at the source
    /// directory, then each option expands with its placeholders
    /// substituted.
    pub fn apply_options(&self, cmd: &mut AdocCommand)
        ensures
            final(cmd).program == old(cmd).program,
            final(cmd).current_dir@ == self.src_dir@,
            str_views(final(cmd).args@) == str_views(old(cmd).args@) + seq!["-B"@, self.src_dir@]
                + expand_opts_spec(self.opts@, *self),
    {
        let ghost base = str_views(cmd.args@);
        cmd.current_dir = self.src_dir.clone();
        let flag: String = String::from_str("-B");
        let ghost pre0 = cmd.args@;
        cmd.args.push(flag);
        proof {
            lemma_str_views_push(pre0, cmd.args@.last());
        }
        let ghost pre1 = cmd.args@;
        cmd.args.push(self.src_dir.clone());
        proof {
            lemma_str_views_push(pre1, cmd.args@.last());
            assert(str_views(cmd.args@) =~= base + seq!["-B"@, self.src_dir@]);
        }
        let mut i: usize = 0;
        proof {
            assert(expand_opts_spec(self.opts@.subrange(0, 0), *self) =~= Seq::<Seq<char>>::empty());
            assert(str_views(cmd.args@) =~= base + seq!["-B"@, self.src_dir@] + expand_opts_spec(
                self.opts@.subrange(0, 0),
                *self,
            ));
        }
        while i < self.opts.len()
            invariant
                i <= self.opts@.len(),
                cmd.program == old(cmd).program,
                cmd.current_dir@ == self.src_dir@,
                str_views(cmd.args@) == base + seq!["-B"@, self.src_dir@] + expand_opts_spec(
                    self.opts@.subrange(0, i as int),
                    *self,
                ),
            decreases self.opts@.len() - i,
        {
            let o = &self.opts[i];
            let ghost mid = str_views(cmd.args@);
            if o.args.len() == 0 {
                let ghost pre = cmd.args@;
                cmd.args.push(o.name.clone());
                proof {
                    lemma_str_views_push(pre, cmd.args@.last());
                    assert(str_views(cmd.args@) =~= mid + expand_opt_spec(
                        self.opts@[i as int],
                        *self,
                    ));
                }
            } else {
                let mut k: usize = 0;
                proof {
                    assert(str_views(o.args@).skip(0) =~= str_views(o.args@));
                    assert(str_views(cmd.args@) + expand_args_spec(
                        o.name@,
                        str_views(o.args@).skip(0),
                        *self,
                    ) =~= mid + expand_args_spec(o.name@, str_views(o.args@), *self));
                }
                while k < o.args.len()
                    invariant
                        k <= o.args@.len(),
                        cmd.program == old(cmd).program,
                        cmd.current_dir@ == self.src_dir@,
                        o == self.opts@[i as int],
                        i < self.opts@.len(),
                        str_views(cmd.args@) + expand_args_spec(
                            o.name@,
                            str_views(o.args@).skip(k as int),
                            *self,
                        ) == mid + expand_args_spec(o.name@, str_views(o.args@), *self),
                    decreases o.args@.len() - k,
                {
                    let ghost argtail = str_views(o.args@).skip(k as int);
                    proof {
                        assert(argtail[0] == str_views(o.args@)[k as int]);
                        assert(argtail.drop_first() =~= str_views(o.args@).skip(k + 1));
                    }
                    let replaced = self.replace_placeholder_strings(&o.args[k]);
                    let ghost pre = cmd.args@;
                    cmd.args.push(o.name.clone());
                    proof {
                        lemma_str_views_push(pre, cmd.args@.last());
                    }
                    let ghost pre2 = cmd.args@;
                    cmd.args.push(replaced);
                    k += 1;
                    proof {
                        lemma_str_views_push(pre2, cmd.args@.last());
                        assert(str_views(cmd.args@) + expand_args_spec(
                            o.name@,
                            str_views(o.args@).skip(k as int),
                            *self,
                        ) =~= str_views(pre) + expand_args_spec(o.name@, argtail, *self));
                    }
                }
                proof {
                    assert(str_views(o.args@).skip(k as int) =~= Seq::<Seq<char>>::empty());
                    assert(str_views(cmd.args@) =~= mid + expand_opt_spec(
                        self.opts@[i as int],
                        *self,
                    ));
                }
            }
            i += 1;
            proof {
                lemma_expand_opts_snoc(self.opts@, *self, i as int);
                assert(str_views(cmd.args@) =~= base + seq!["-B"@, self.src_dir@]
                    + expand_opts_spec(self.opts@.subrange(0, i as int), *self));
            }
        }
        proof {
            assert(self.opts@.subrange(0, i as int) =~= self.opts@);
        }
    }
}

/// Only the options already named `--embedded` stay.
pub open spec fn keep_embedded_spec(opts: Seq<(Seq<char>, Seq<Seq<char>>)>) -> Seq<
    (Seq<char>, Seq<Seq<char>>),
>
    decreases opts.len(),
{
    if opts.len() == 0 {
        Seq::empty()
    } else {
        let rest = keep_embedded_spec(opts.drop_first());
        if opts[0].0 == "--embedded"@ {
            seq![opts[0]] + rest
        } else {
            rest
        }
    }
}

/// A one-longer prefix of options expands to the shorter prefix's words
/// plus the last option's words.
pub proof fn lemma_expand_opts_snoc(opts: Seq<CmdOption>, acx: AdocRunContext, i: int)
    requires
        0 < i <= opts.len(),
    ensures
        expand_opts_spec(opts.subrange(0, i), acx) == expand_opts_spec(opts.subrange(0, i - 1), acx)
            + expand_opt_spec(opts[i - 1], acx),
    decreases i,
{
    reveal_with_fuel(expand_opts_spec, 3);
    let pre = opts.subrange(0, i);
    if i == 1 {
        assert(pre.drop_first() =~= Seq::<CmdOption>::empty());
        assert(opts.subrange(0, 0) =~= Seq::<CmdOption>::empty());
        assert(expand_opts_spec(pre, acx) =~= expand_opts_spec(opts.subrange(0, 0), acx)
            + expand_opt_spec(opts[0], acx));
    } else {
        let t = opts.drop_first();
        assert(pre.drop_first() =~= t.subrange(0, i - 1));
        assert(opts.subrange(0, i - 1).drop_first() =~= t.subrange(0, i - 2));
        lemma_expand_opts_snoc(t, acx, i - 1);
        assert(t[i - 2] == opts[i - 1]);
        assert(expand_opts_spec(pre, acx) =~= expand_opts_spec(opts.subrange(0, i - 1), acx)
            + expand_opt_spec(opts[i - 1], acx));
    }
}

/// Appending one option appends its view.
proof fn lemma_opts_views_push(opts: Seq<CmdOption>, o: CmdOption)
    ensures
        opts_views(opts.push(o)) =~= opts_views(opts).push(opt_view(o)),
{
}

/// A copy of one declared option, record for record.
pub fn copy_opt(o: &CmdOption) -> (r: CmdOption)
    ensures
        r.name == o.name,
        r.args@ == o.args@,
{
    let mut args: Vec<String> = Vec::new();
    let mut k: usize = 0;
    while k < o.args.len()
        invariant
            k <= o.args@.len(),
            args@ == o.args@.subrange(0, k as int),
        decreases o.args@.len() - k,
    {
        args.push(o.args[k].clone());
        k += 1;
        proof {
            assert(args@ =~= o.args@.subrange(0, k as int));
        }
    }
    proof {
        assert(args@ =~= o.args@);
    }
    CmdOption { name: o.name.clone(), args }
}

/// A deep copy of an option list, record for record.
pub fn clone_opts(opts: &CmdOptions) -> (r: CmdOptions)
    ensures
        opts_views(r@) == opts_views(opts@),
{
    let mut out: CmdOptions = Vec::new();
    let mut i: usize = 0;
    while i < opts.len()
        invariant
            i <= opts@.len(),
            opts_views(out@) == opts_views(opts@.subrange(0, i as int)),
        decreases opts@.len() - i,
    {
        let ghost pre = out@;
        let copied = copy_opt(&opts[i]);
        out.push(copied);
        i += 1;
        proof {
            lemma_opts_views_push(pre, out@.last());
            assert(opt_view(out@.last()) == opt_view(opts@[i - 1]));
            assert(opts_views(out@) =~= opts_views(opts@.subrange(0, i as int)));
        }
    }
    proof {
        assert(opts@.subrange(0, i as int) =~= opts@);
    }
    out
}

/// The fixed part of the converter's argument list: the source file, output
/// to standard output, the diagram extension, and verbose tracing.
pub open spec fn asciidoctor_args_spec(src_file: Seq<char>, acx: AdocRunContext) -> Seq<Seq<char>> {
    seq![src_file, "-o"@, "-"@, "-r"@, "asciidoctor-diagram"@, "--trace"@, "--verbose"@] + seq![
        "-B"@,
        acx.src_dir@,
    ] + expand_opts_spec(acx.opts@, acx)
}

/// Assembles the full converter command for one source file, or refuses
/// when the file does not exist. The shell's only work is to spawn it.
pub fn asciidoctor(src_file: &String, acx: &AdocRunContext, fs: &FsCatalog) -> (r: Result<
    AdocCommand,
    String,
>)
    ensures
        match r {
            Ok(cmd) => {
                &&& fs.has_file(src_file@)
                &&& cmd.program@ == "asciidoctor"@
                &&& cmd.current_dir@ == acx.src_dir@
                &&& str_views(cmd.args@) == asciidoctor_args_spec(src_file@, *acx)
            },
            Err(_) => !fs.has_file(src_file@),
        },
{
    if !fs.is_file(src_file) {
        return Err(String::from_str("Given non-existing file as conversion source"));
    }
    let mut cmd = AdocCommand {
        program: String::from_str("asciidoctor"),
        current_dir: String::new(),
        args: Vec::new(),
    };
    let ghost names: Seq<Seq<char>> = seq![
        src_file@,
        "-o"@,
        "-"@,
        "-r"@,
        "asciidoctor-diagram"@,
        "--trace"@,
        "--verbose"@,
    ];
    push_arg(&mut cmd.args, src_file.clone());
    push_arg(&mut cmd.args, String::from_str("-o"));
    push_arg(&mut cmd.args, String::from_str("-"));
    push_arg(&mut cmd.args, String::from_str("-r"));
    push_arg(&mut cmd.args, String::from_str("asciidoctor-diagram"));
    push_arg(&mut cmd.args, String::from_str("--trace"));
    push_arg(&mut cmd.args, String::from_str("--verbose"));
    proof {
        assert(str_views(cmd.args@) =~= names);
    }
    acx.apply_options(&mut cmd);
    proof {
        assert(str_views(cmd.args@) =~= asciidoctor_args_spec(src_file@, *acx));
    }
    Ok(cmd)
}

/// Appends one word to an argument list.
fn push_arg(args: &mut Vec<String>, arg: String)
    ensures
        str_views(final(args)@) == str_views(old(args)@).push(arg@),
        final(args)@ == old(args)@.push(arg),
{
    let ghost pre = args@;
    args.push(arg);
    proof {
        lemma_str_views_push(pre, args@.last());
    }
}

} // verus!

verus! {

/// Attribute of a source document. Unlike the converter itself, attributes
/// given on the command line are always overridable by the document.
#[derive(Debug, Clone, PartialEq, Eq)]
pub enum AdocAttr {
    /// `:!attribute:` — the document switches the attribute off.
    Deny(String),
    /// `:attribute: value`.
    Allow(String, String),
}

/// One attribute as (is it an allow, its name, its value); a deny has the
/// empty value.
pub open spec fn attr_view(a: AdocAttr) -> (bool, Seq<char>, Seq<char>) {
    match a {
        AdocAttr::Deny(n) => (false, n@, Seq::<char>::empty()),
        AdocAttr::Allow(n, v) => (true, n@, v@),
    }
}

/// The views of a whole attribute list.
pub open spec fn attr_views(attrs: Seq<AdocAttr>) -> Seq<(bool, Seq<char>, Seq<char>)> {
    attrs.map_values(|a: AdocAttr| attr_view(a))
}

/// Appending one attribute appends its view.
proof fn lemma_attr_views_push(attrs: Seq<AdocAttr>, a: AdocAttr)
    ensures
        attr_views(attrs.push(a)) =~= attr_views(attrs).push(attr_view(a)),
{
}

impl AdocAttr {
    /// The attribute's name.
    pub open spec fn name_spec(self) -> Seq<char> {
        match self {
            AdocAttr::Deny(n) => n@,
            AdocAttr::Allow(n, _v) => n@,
        }
    }

    /// The attribute's name.
    pub fn name(&self) -> (r: &str)
        ensures
            r@ == self.name_spec(),
    {
        match self {
            AdocAttr::Deny(name) => name.as_str(),
            AdocAttr::Allow(name, _value) => name.as_str(),
        }
    }

    /// The attribute's value; a deny has none.
    pub fn value(&self) -> (r: Option<&str>)
        ensures
            match r {
                Some(v) => self is Allow && attr_view(*self).2 == v@,
                None => self is Deny,
            },
    {
        match self {
            AdocAttr::Deny(_name) => None,
            AdocAttr::Allow(_name, value) => Some(value.as_str()),
        }
    }

    /// `name` switched off.
    pub fn deny(name: &str) -> (r: Self)
        ensures
            attr_view(r) == (false, name@, Seq::<char>::empty()),
    {
        AdocAttr::Deny(String::from_str(name))
    }

    /// `name` set to `value`.
    pub fn allow(name: &str, value: &str) -> (r: Self)
        ensures
            attr_view(r) == (true, name@, value@),
    {
        AdocAttr::Allow(String::from_str(name), String::from_str(value))
    }

    /// A bare name: `!name` denies `name`, anything else allows it with the
    /// empty value.
    pub fn from_name(name: &str) -> (r: Self)
        ensures
            attr_view(r) == from_name_view_spec(name@),
    {
        let chars = str_to_chars(name);
        if chars.len() > 0 && chars[0] == '!' {
            let rest = crate::text::sub_chars(&chars, 1, chars.len());
            proof {
                assert(rest@ =~= name@.drop_first());
            }
            AdocAttr::Deny(chars_to_string(&rest))
        } else {
            AdocAttr::Allow(chars_to_string(&chars), String::new())
        }
    }
}

/// The view [`AdocAttr::from_name`] produces for a bare name.
pub open spec fn from_name_view_spec(name: Seq<char>) -> (bool, Seq<char>, Seq<char>) {
    if name.len() > 0 && name[0] == '!' {
        (false, name.drop_first(), Seq::<char>::empty())
    } else {
        (true, name, Seq::<char>::empty())
    }
}

} // verus!

verus! {

/// A line the header scan ignores: blank up to whitespace, or a comment.
pub open spec fn is_skip_line_spec(ln: Seq<char>) -> bool {
    let t = crate::text::trim_spec(ln);
    t.len() == 0 || crate::text::starts_with_spec(t, "//"@)
}

/// The lines the header scan reads, in order.
pub open spec fn significant_lines_spec(lines: Seq<Seq<char>>) -> Seq<Seq<char>>
    decreases lines.len(),
{
    if lines.len() == 0 {
        Seq::empty()
    } else {
        let rest = significant_lines_spec(lines.drop_first());
        if is_skip_line_spec(lines[0]) {
            rest
        } else {
            seq![lines[0]] + rest
        }
    }
}

/// The attribute one well-formed `:name: value` line carries. The name is
/// what stands between the two colons, trimmed; a leading `!` turns the
/// line into a deny; the value is the trimmed remainder with placeholders
/// substituted.
pub open spec fn attr_of_line_spec(line: Seq<char>, acx: AdocRunContext) -> (
    bool,
    Seq<char>,
    Seq<char>,
) {
    let p2 = crate::text::index_of_from(line, ':', 1);
    let name0 = crate::text::trim_spec(line.subrange(1, p2));
    let value = crate::text::trim_spec(line.skip(p2 + 1));
    if name0.len() > 0 && name0[0] == '!' {
        (false, name0.drop_first(), Seq::<char>::empty())
    } else {
        (true, name0, replace_placeholders_spec(value, acx.base_url@, acx.src_dir@, acx.dst_dir@))
    }
}

/// The attributes the header scan collects from the lines after the title:
/// a line without any colon stops the scan; a line whose first colon is not
/// at the start, or which has no second colon, is passed over; any other
/// line contributes one attribute.
pub open spec fn attrs_spec(lines: Seq<Seq<char>>, acx: AdocRunContext) -> Seq<
    (bool, Seq<char>, Seq<char>),
>
    decreases lines.len(),
{
    if lines.len() == 0 {
        Seq::empty()
    } else {
        let line = lines[0];
        let p1 = crate::text::index_of_from(line, ':', 0);
        if p1 == -1 {
            Seq::empty()
        } else if p1 != 0 {
            attrs_spec(lines.drop_first(), acx)
        } else if crate::text::index_of_from(line, ':', 1) == -1 {
            attrs_spec(lines.drop_first(), acx)
        } else {
            seq![attr_of_line_spec(line, acx)] + attrs_spec(lines.drop_first(), acx)
        }
    }
}

/// The document's title: the first significant line, when it opens with
/// `"= "`, trimmed of the marker and surrounding whitespace.
pub open spec fn extract_title_spec(text: Seq<char>) -> Option<Seq<char>> {
    let sig = significant_lines_spec(crate::text::lines_spec(text));
    if sig.len() > 0 && crate::text::starts_with_spec(sig[0], "= "@) {
        Some(crate::text::trim_spec(sig[0].skip(2)))
    } else {
        None
    }
}

/// The document's attributes: the header scan over the significant lines
/// after the title line, if there is one.
pub open spec fn extract_attrs_spec(text: Seq<char>, acx: AdocRunContext) -> Seq<
    (bool, Seq<char>, Seq<char>),
> {
    let sig = significant_lines_spec(crate::text::lines_spec(text));
    if sig.len() > 0 && crate::text::starts_with_spec(sig[0], "= "@) {
        attrs_spec(sig.drop_first(), acx)
    } else {
        attrs_spec(sig, acx)
    }
}

/// Document metadata handed to the template engine. The converter's
/// embedded mode emits no document title or header, so the crate extracts
/// them from the source text itself.
#[derive(Debug, PartialEq, Eq)]
pub struct AdocMetadata {
    pub title: Option<String>,
    pub attrs: Vec<AdocAttr>,
    /// Fallback attributes, usually the converter's command-line options.
    pub base: Option<Box<AdocMetadata>>,
}

/// The first attribute named `name`, by view.
pub open spec fn first_attr_match(attrs: Seq<AdocAttr>, name: Seq<char>) -> Option<AdocAttr>
    decreases attrs.len(),
{
    if attrs.len() == 0 {
        None
    } else if attrs[0].name_spec() == name {
        Some(attrs[0])
    } else {
        first_attr_match(attrs.drop_first(), name)
    }
}

proof fn lemma_first_attr_match_skip(attrs: Seq<AdocAttr>, name: Seq<char>, i: int)
    requires
        0 <= i <= attrs.len(),
        forall|k: int| 0 <= k < i ==> (#[trigger] attrs[k]).name_spec() != name,
    ensures
        first_attr_match(attrs, name) == first_attr_match(attrs.skip(i), name),
    decreases i,
{
    if i == 0 {
        assert(attrs.skip(0) =~= attrs);
    } else {
        assert(attrs[0].name_spec() != name);
        lemma_first_attr_match_skip(attrs.drop_first(), name, i - 1);
        assert(attrs.drop_first().skip(i - 1) =~= attrs.skip(i));
    }
}

impl AdocMetadata {
    /// The attribute `name` resolves to: the document's own first, then the
    /// fallback chain's.
    pub open spec fn find_attr_spec(self, name: Seq<char>) -> Option<AdocAttr>
        decreases self,
    {
        match first_attr_match(self.attrs@, name) {
            Some(a) => Some(a),
            None => match self.base {
                Some(b) => b.find_attr_spec(name),
                None => None,
            },
        }
    }

    /// Finds the attribute `name`, looking at the document's own attributes
    /// before the fallback chain. Duplicates after the first are not
    /// considered.
    pub fn find_attr(&self, name: &str) -> (r: Option<&AdocAttr>)
        ensures
            match r {
                Some(a) => self.find_attr_spec(name@) == Some(*a),
                None => self.find_attr_spec(name@) is None,
            },
        decreases *self,
    {
        let name_chars = str_to_chars(name);
        let mut i: usize = 0;
        while i < self.attrs.len()
            invariant
                i <= self.attrs@.len(),
                name_chars@ == name@,
                forall|k: int| 0 <= k < i ==> (#[trigger] self.attrs@[k]).name_spec() != name@,
            decreases self.attrs@.len() - i,
        {
            let a = &self.attrs[i];
            let a_name = str_to_chars(a.name());
            if crate::text::eq_chars(&a_name, &name_chars) {
                proof {
                    lemma_first_attr_match_skip(self.attrs@, name@, i as int);
                    assert(self.attrs@.skip(i as int)[0] == self.attrs@[i as int]);
                }
                return Some(a);
            }
            i += 1;
        }
        proof {
            lemma_first_attr_match_skip(self.attrs@, name@, i as int);
            assert(self.attrs@.skip(i as int) =~= Seq::<AdocAttr>::empty());
        }
        match &self.base {
            Some(base) => base.find_attr(name),
            None => None,
        }
    }

    /// Sets the fallback metadata consulted when the document itself lacks
    /// an attribute.
    pub fn derive(&mut self, base: Self)
        ensures
            final(self).title == old(self).title,
            final(self).attrs == old(self).attrs,
            final(self).base matches Some(b) && *b == base,
    {
        self.base = Some(Box::new(base));
    }

    /// Is this line ignored by the header scan? Blank lines and `//`
    /// comment lines are.
    pub fn is_line_to_skip(ln: &str) -> (r: bool)
        ensures
            r == is_skip_line_spec(ln@),
    {
        let chars = str_to_chars(ln);
        let t = crate::text::trim(&chars);
        t.len() == 0 || crate::text::starts_with(&t, "//")
    }
}

} // verus!

verus! {

/// The attributes of the significant lines from `start` on, as
/// [`attrs_spec`] collects them.
fn scan_attrs(sig: &Vec<Vec<char>>, start: usize, acx: &AdocRunContext) -> (r: Vec<AdocAttr>)
    requires
        start <= sig@.len(),
    ensures
        attr_views(r@) == attrs_spec(crate::text::views_of(sig@).skip(start as int), *acx),
{
    let ghost sigv = crate::text::views_of(sig@);
    let mut attrs: Vec<AdocAttr> = Vec::new();
    let mut j: usize = start;
    proof {
        assert(attr_views(attrs@) =~= Seq::<(bool, Seq<char>, Seq<char>)>::empty());
        assert(attr_views(attrs@) + attrs_spec(sigv.skip(start as int), *acx) =~= attrs_spec(
            sigv.skip(start as int),
            *acx,
        ));
    }
    while j < sig.len()
        invariant
            start <= j <= sigv.len(),
            sigv == crate::text::views_of(sig@),
            attr_views(attrs@) + attrs_spec(sigv.skip(j as int), *acx) == attrs_spec(
                sigv.skip(start as int),
                *acx,
            ),
        decreases sigv.len() - j,
    {
        let ghost tail = sigv.skip(j as int);
        proof {
            assert(tail[0] == sigv[j as int]);
            assert(tail.drop_first() =~= sigv.skip(j + 1));
            assert(sigv[j as int] == sig@[j as int]@);
        }
        let line = &sig[j];
        match crate::text::find_char_from(line, ':', 0) {
            None => {
                // a line without any colon ends the header scan
                proof {
                    assert(attrs_spec(tail, *acx) =~= Seq::<(bool, Seq<char>, Seq<char>)>::empty());
                    assert(attr_views(attrs@) + attrs_spec(tail, *acx) =~= attr_views(attrs@));
                }
                return attrs;
            },
            Some(p1) => {
                if p1 == 0 {
                    match crate::text::find_char_from(line, ':', 1) {
                        None => {
                            proof {
                                assert(attrs_spec(tail, *acx) == attrs_spec(
                                    tail.drop_first(),
                                    *acx,
                                ));
                            }
                        },
                        Some(p2) => {
                            let n: usize = line.len();
                            proof {
                                assert(p2 < n);
                            }
                            let name0 = crate::text::trim(&crate::text::sub_chars(line, 1, p2));
                            let value_chars = crate::text::trim(
                                &crate::text::sub_chars(line, p2 + 1, n),
                            );
                            proof {
                                assert(line@.subrange(p2 + 1, line@.len() as int) =~= line@.skip(
                                    p2 + 1,
                                ));
                            }
                            let ghost pre = attrs@;
                            if name0.len() > 0 && name0[0] == '!' {
                                let stripped = crate::text::sub_chars(&name0, 1, name0.len());
                                proof {
                                    assert(stripped@ =~= name0@.drop_first());
                                }
                                attrs.push(AdocAttr::Deny(chars_to_string(&stripped)));
                            } else {
                                let value = acx.replace_placeholder_strings(
                                    &chars_to_string(&value_chars),
                                );
                                attrs.push(
                                    AdocAttr::Allow(chars_to_string(&name0), value),
                                );
                            }
                            proof {
                                lemma_attr_views_push(pre, attrs@.last());
                                assert(attr_view(attrs@.last()) == attr_of_line_spec(
                                    tail[0],
                                    *acx,
                                ));
                                assert(attrs_spec(tail, *acx) == seq![
                                    attr_of_line_spec(tail[0], *acx),
                                ] + attrs_spec(tail.drop_first(), *acx));
                                assert(attr_views(attrs@) + attrs_spec(tail.drop_first(), *acx)
                                    =~= attr_views(pre) + attrs_spec(tail, *acx));
                            }
                        },
                    }
                } else {
                    proof {
                        assert(attrs_spec(tail, *acx) == attrs_spec(tail.drop_first(), *acx));
                    }
                }
            },
        }
        j += 1;
    }
    proof {
        assert(sigv.skip(j as int) =~= Seq::<Seq<char>>::empty());
        assert(attrs_spec(sigv.skip(j as int), *acx) =~= Seq::<
            (bool, Seq<char>, Seq<char>),
        >::empty());
        assert(attr_views(attrs@) + attrs_spec(sigv.skip(j as int), *acx) =~= attr_views(attrs@));
    }
    attrs
}

impl AdocMetadata {
    /// Extracts the title and the `:attribute: value` lines from a source
    /// document's header, substituting placeholder tokens in values.
    pub fn extract(text: &str, acx: &AdocRunContext) -> (r: Self)
        ensures
            match r.title {
                Some(t) => extract_title_spec(text@) == Some(t@),
                None => extract_title_spec(text@) is None,
            },
            attr_views(r.attrs@) == extract_attrs_spec(text@, *acx),
            r.base is None,
    {
        let chars = str_to_chars(text);
        let lines = crate::text::split_lines(&chars);
        let ghost linesv = crate::text::views_of(lines@);

        // keep the lines the header scan reads
        let mut sig: Vec<Vec<char>> = Vec::new();
        let mut i: usize = 0;
        proof {
            assert(crate::text::views_of(sig@) =~= Seq::<Seq<char>>::empty());
            assert(crate::text::views_of(sig@) + significant_lines_spec(linesv.skip(0))
                =~= significant_lines_spec(linesv)) by {
                assert(linesv.skip(0) =~= linesv);
            }
        }
        while i < lines.len()
            invariant
                i <= linesv.len(),
                linesv == crate::text::views_of(lines@),
                crate::text::views_of(sig@) + significant_lines_spec(linesv.skip(i as int))
                    == significant_lines_spec(linesv),
            decreases linesv.len() - i,
        {
            let ghost tail = linesv.skip(i as int);
            proof {
                assert(tail[0] == linesv[i as int]);
                assert(tail.drop_first() =~= linesv.skip(i + 1));
                assert(linesv[i as int] == lines@[i as int]@);
            }
            let line = &lines[i];
            let t = crate::text::trim(line);
            if t.len() == 0 || crate::text::starts_with(&t, "//") {
                proof {
                    assert(is_skip_line_spec(tail[0]));
                    assert(significant_lines_spec(tail) == significant_lines_spec(
                        tail.drop_first(),
                    ));
                }
            } else {
                let copied = crate::text::sub_chars(line, 0, line.len());
                proof {
                    assert(copied@ =~= line@);
                }
                let ghost pre = sig@;
                sig.push(copied);
                proof {
                    crate::text::lemma_views_of_push(pre, sig@.last());
                    assert(!is_skip_line_spec(tail[0]));
                    assert(significant_lines_spec(tail) == seq![tail[0]]
                        + significant_lines_spec(tail.drop_first()));
                    assert(crate::text::views_of(sig@) + significant_lines_spec(tail.drop_first())
                        =~= crate::text::views_of(pre) + significant_lines_spec(tail));
                }
            }
            i += 1;
        }
        proof {
            assert(linesv.skip(i as int) =~= Seq::<Seq<char>>::empty());
            assert(significant_lines_spec(linesv.skip(i as int)) =~= Seq::<Seq<char>>::empty());
            assert(crate::text::views_of(sig@) + significant_lines_spec(linesv.skip(i as int))
                =~= crate::text::views_of(sig@));
        }
        let ghost sigv = crate::text::views_of(sig@);

        // `= Title`
        let mut title: Option<String> = None;
        let mut start: usize = 0;
        if sig.len() > 0 && crate::text::starts_with(&sig[0], "= ") {
            proof {
                reveal_strlit("= ");
            }
            let line0 = &sig[0];
            let rest = crate::text::sub_chars(line0, 2, line0.len());
            proof {
                assert(sigv[0] == sig@[0]@);
                assert(rest@ =~= sigv[0].skip(2));
            }
            let tt = crate::text::trim(&rest);
            title = Some(chars_to_string(&tt));
            start = 1;
        }

        // `:attribute: value` lines
        let attrs = scan_attrs(&sig, start, acx);
        proof {
            if start == 1 {
                assert(sigv.skip(1) =~= sigv.drop_first());
            } else {
                assert(sigv.skip(0) =~= sigv);
            }
        }
        AdocMetadata { title, attrs, base: None }
    }
}

} // verus!

verus! {

/// `s` without one trailing `@`, which marks converter-level precedence and
/// is ignored here.
pub open spec fn strip_at_spec(s: Seq<char>) -> Seq<char> {
    if s.len() > 0 && s.last() == '@' {
        s.drop_last()
    } else {
        s
    }
}

/// The attribute one `-a` argument carries: a bare name allows or denies,
/// `name=value` allows with the value, `@` markers are dropped and
/// placeholders substituted.
pub open spec fn cmd_attr_of_spec(arg: Seq<char>, acx: AdocRunContext) -> (
    bool,
    Seq<char>,
    Seq<char>,
) {
    let found = crate::text::index_of_from(arg, '=', 0);
    let eq_pos: int = if found == -1 {
        0
    } else {
        found
    };
    if eq_pos == 0 {
        from_name_view_spec(arg)
    } else {
        let name = strip_at_spec(arg.subrange(0, eq_pos));
        let value = strip_at_spec(arg.skip(eq_pos + 1));
        (true, name, replace_placeholders_spec(value, acx.base_url@, acx.src_dir@, acx.dst_dir@))
    }
}

/// The attributes a whole `-a` argument list carries, in order.
pub open spec fn cmd_attrs_spec(args: Seq<Seq<char>>, acx: AdocRunContext) -> Seq<
    (bool, Seq<char>, Seq<char>),
>
    decreases args.len(),
{
    if args.len() == 0 {
        Seq::empty()
    } else {
        seq![cmd_attr_of_spec(args[0], acx)] + cmd_attrs_spec(args.drop_first(), acx)
    }
}

/// The arguments of the first `-a` option, if one is declared.
pub open spec fn find_a_opt_args(opts: Seq<CmdOption>) -> Option<Seq<Seq<char>>>
    decreases opts.len(),
{
    if opts.len() == 0 {
        None
    } else if opts[0].name@ == "-a"@ {
        Some(str_views(opts[0].args@))
    } else {
        find_a_opt_args(opts.drop_first())
    }
}

proof fn lemma_find_a_opt_skip(opts: Seq<CmdOption>, i: int)
    requires
        0 <= i <= opts.len(),
        forall|k: int| 0 <= k < i ==> (#[trigger] opts[k]).name@ != "-a"@,
    ensures
        find_a_opt_args(opts) == find_a_opt_args(opts.skip(i)),
    decreases i,
{
    if i == 0 {
        assert(opts.skip(0) =~= opts);
    } else {
        assert(opts[0].name@ != "-a"@);
        lemma_find_a_opt_skip(opts.drop_first(), i - 1);
        assert(opts.drop_first().skip(i - 1) =~= opts.skip(i));
    }
}

/// The arguments of the first declared `-a` option.
fn find_a_args(opts: &CmdOptions) -> (r: Option<&Vec<String>>)
    ensures
        match r {
            Some(args) => find_a_opt_args(opts@) == Some(str_views(args@)),
            None => find_a_opt_args(opts@) is None,
        },
{
    let mut oi: usize = 0;
    while oi < opts.len()
        invariant
            oi <= opts@.len(),
            forall|k: int| 0 <= k < oi ==> (#[trigger] opts@[k]).name@ != "-a"@,
        decreases opts@.len() - oi,
    {
        let name_chars = str_to_chars(opts[oi].name.as_str());
        if crate::text::eq_lit(&name_chars, "-a") {
            proof {
                lemma_find_a_opt_skip(opts@, oi as int);
                assert(opts@.skip(oi as int)[0] == opts@[oi as int]);
            }
            return Some(&opts[oi].args);
        }
        oi += 1;
    }
    proof {
        lemma_find_a_opt_skip(opts@, oi as int);
        assert(opts@.skip(oi as int) =~= Seq::<CmdOption>::empty());
    }
    None
}

impl AdocMetadata {
    /// The fallback attributes the converter's command line supplies: what
    /// the first `-a` option's arguments declare, with `@` markers dropped
    /// and placeholders substituted. No title, no further fallback.
    pub fn from_cmd_opts(opts: &CmdOptions, acx: &AdocRunContext) -> (r: Self)
        ensures
            r.title is None,
            r.base is None,
            attr_views(r.attrs@) == match find_a_opt_args(opts@) {
                None => Seq::<(bool, Seq<char>, Seq<char>)>::empty(),
                Some(args) => cmd_attrs_spec(args, *acx),
            },
    {
        let attr_args: &Vec<String> = match find_a_args(opts) {
            Some(args) => args,
            None => {
                return AdocMetadata { title: None, attrs: Vec::new(), base: None };
            },
        };

        let ghost argsv = str_views(attr_args@);
        let mut attrs: Vec<AdocAttr> = Vec::new();
        let mut i: usize = 0;
        proof {
            assert(argsv.skip(0) =~= argsv);
            assert(attr_views(attrs@) + cmd_attrs_spec(argsv, *acx) =~= cmd_attrs_spec(
                argsv,
                *acx,
            ));
        }
        while i < attr_args.len()
            invariant
                i <= argsv.len(),
                argsv == str_views(attr_args@),
                attr_views(attrs@) + cmd_attrs_spec(argsv.skip(i as int), *acx) == cmd_attrs_spec(
                    argsv,
                    *acx,
                ),
            decreases argsv.len() - i,
        {
            let ghost tail = argsv.skip(i as int);
            proof {
                assert(tail[0] == argsv[i as int]);
                assert(tail.drop_first() =~= argsv.skip(i + 1));
                assert(argsv[i as int] == attr_args@[i as int]@);
            }
            let arg = str_to_chars(attr_args[i].as_str());
            let n: usize = arg.len();
            let ghost pre = attrs@;
            let eq_pos: usize = match crate::text::find_char_from(&arg, '=', 0) {
                Some(e) => e,
                None => 0,
            };
            if eq_pos == 0 {
                attrs.push(AdocAttr::from_name(attr_args[i].as_str()));
            } else {
                let mut name = crate::text::sub_chars(&arg, 0, eq_pos);
                if crate::text::ends_with_char(&name, '@') {
                    let shorter = crate::text::sub_chars(&name, 0, name.len() - 1);
                    proof {
                        assert(shorter@ =~= name@.drop_last());
                    }
                    name = shorter;
                }
                let mut value = crate::text::sub_chars(&arg, eq_pos + 1, n);
                proof {
                    assert(value@ =~= arg@.skip(eq_pos + 1));
                }
                if crate::text::ends_with_char(&value, '@') {
                    let shorter = crate::text::sub_chars(&value, 0, value.len() - 1);
                    proof {
                        assert(shorter@ =~= value@.drop_last());
                    }
                    value = shorter;
                }
                let replaced = acx.replace_placeholder_strings(&chars_to_string(&value));
                attrs.push(AdocAttr::Allow(chars_to_string(&name), replaced));
            }
            i += 1;
            proof {
                lemma_attr_views_push(pre, attrs@.last());
                assert(attr_view(attrs@.last()) == cmd_attr_of_spec(tail[0], *acx));
                assert(cmd_attrs_spec(tail, *acx) == seq![cmd_attr_of_spec(tail[0], *acx)]
                    + cmd_attrs_spec(tail.drop_first(), *acx));
                assert(attr_views(attrs@) + cmd_attrs_spec(argsv.skip(i as int), *acx) =~= attr_views(
                    pre,
                ) + cmd_attrs_spec(tail, *acx));
            }
        }
        proof {
            assert(argsv.skip(i as int) =~= Seq::<Seq<char>>::empty());
            assert(attr_views(attrs@) + cmd_attrs_spec(argsv.skip(i as int), *acx) =~= attr_views(
                attrs@,
            ));
        }
        AdocMetadata { title: None, attrs, base: None }
    }

    /// Extracts a document's metadata and sets the converter command line's
    /// attributes as its fallback.
    pub fn extract_with_base(adoc_text: &str, acx: &AdocRunContext) -> (r: Self)
        ensures
            match r.title {
                Some(t) => extract_title_spec(adoc_text@) == Some(t@),
                None => extract_title_spec(adoc_text@) is None,
            },
            attr_views(r.attrs@) == extract_attrs_spec(adoc_text@, *acx),
            r.base matches Some(b) && b.title is None && b.base is None && attr_views(b.attrs@)
                == match find_a_opt_args(acx.opts@) {
                None => Seq::<(bool, Seq<char>, Seq<char>)>::empty(),
                Some(args) => cmd_attrs_spec(args, *acx),
            },
    {
        let mut meta = Self::extract(adoc_text, acx);
        let base = Self::from_cmd_opts(&acx.opts, acx);
        meta.derive(base);
        meta
    }
}

} // verus!

verus! {

impl AdocRunContext {
    /// A copy of this context, field for field.
    pub fn clone_context(&self) -> (r: Self)
        ensures
            r.src_dir@ == self.src_dir@,
            r.dst_dir@ == self.dst_dir@,
            r.base_url@ == self.base_url@,
            opts_views(r.opts@) == opts_views(self.opts@),
    {
        Self {
            src_dir: self.src_dir.clone(),
            dst_dir: self.dst_dir.clone(),
            opts: clone_opts(&self.opts),
            base_url: self.base_url.clone(),
        }
    }
}

/// Option expansion depends only on the options' views and the context's
/// substitution strings.
pub proof fn lemma_expand_opts_congruence(
    a: Seq<CmdOption>,
    b: Seq<CmdOption>,
    ca: AdocRunContext,
    cb: AdocRunContext,
)
    requires
        opts_views(a) == opts_views(b),
        ca.base_url@ == cb.base_url@,
        ca.src_dir@ == cb.src_dir@,
        ca.dst_dir@ == cb.dst_dir@,
    ensures
        expand_opts_spec(a, ca) == expand_opts_spec(b, cb),
    decreases a.len(),
{
    assert(opts_views(a).len() == a.len());
    assert(opts_views(b).len() == b.len());
    if a.len() > 0 {
        assert(opts_views(a)[0] == opts_views(b)[0]);
        assert(opt_view(a[0]) == opt_view(b[0]));
        assert(opts_views(a.drop_first()) =~= opts_views(b.drop_first())) by {
            assert(forall|k: int|
                0 <= k < a.len() - 1 ==> opts_views(a.drop_first())[k] == opts_views(a)[k + 1]
                    && opts_views(b.drop_first())[k] == opts_views(b)[k + 1]);
        }
        lemma_expand_opts_congruence(a.drop_first(), b.drop_first(), ca, cb);
        lemma_expand_args_congruence(a[0].name@, str_views(a[0].args@), ca, cb);
        assert(expand_opt_spec(a[0], ca) == expand_opt_spec(b[0], cb));
    }
}

/// Argument expansion depends only on the views and the substitution
/// strings.
proof fn lemma_expand_args_congruence(
    name: Seq<char>,
    args: Seq<Seq<char>>,
    ca: AdocRunContext,
    cb: AdocRunContext,
)
    requires
        ca.base_url@ == cb.base_url@,
        ca.src_dir@ == cb.src_dir@,
        ca.dst_dir@ == cb.dst_dir@,
    ensures
        expand_args_spec(name, args, ca) == expand_args_spec(name, args, cb),
    decreases args.len(),
{
    if args.len() > 0 {
        lemma_expand_args_congruence(name, args.drop_first(), ca, cb);
    }
}

/// Appending one bare `--embedded` option appends exactly that one word.
pub proof fn lemma_expand_opts_embedded(opts: Seq<CmdOption>, ctx: AdocRunContext)
    requires
        opts.len() > 0,
        opts.last().name@ == "--embedded"@,
        opts.last().args@.len() == 0,
    ensures
        expand_opts_spec(opts, ctx) == expand_opts_spec(opts.drop_last(), ctx) + seq![
            "--embedded"@,
        ],
{
    assert(opts.subrange(0, opts.len() as int) =~= opts);
    assert(opts.subrange(0, opts.len() - 1) =~= opts.drop_last());
    lemma_expand_opts_snoc(opts, ctx, opts.len() as int);
    assert(expand_opt_spec(opts.last(), ctx) =~= seq!["--embedded"@]);
}

} // verus!
