//! The per-file generated-code accumulator and its assembly into one text
//! blob: a preamble, then the code blocks each emission traversal appended,
//! in traversal-execution order.

use vstd::prelude::*;
use vstd::string::StringExecFns;

use crate::ast::SliceFile;

verus! {

/// The concatenation of a sequence of text fragments, in order.
pub open spec fn concat_all(fragments: Seq<Seq<char>>) -> Seq<char>
    decreases fragments.len(),
{
    if fragments.len() == 0 {
        Seq::empty()
    } else {
        concat_all(fragments.drop_last()) + fragments.last()
    }
}

proof fn lemma_take_step<T>(s: Seq<T>, i: int)
    requires
        0 <= i < s.len(),
    ensures
        s.take(i + 1).drop_last() =~= s.take(i),
        s.take(i + 1).last() == s[i],
{
}

/// The ordered, append-only buffer shared by the emission traversals of one
/// file: a preamble fragment list and a code-block fragment list, each
/// fragment contributed by exactly one writer.
#[derive(Debug, PartialEq, Eq)]
pub struct GeneratedCode {
    pub preamble: Vec<String>,
    pub code_blocks: Vec<String>,
}

/// Spec-level mirror of `GeneratedCode`.
#[verifier::ext_equal]
pub struct GeneratedCodeView {
    pub preamble: Seq<Seq<char>>,
    pub code_blocks: Seq<Seq<char>>,
}

impl View for GeneratedCode {
    type V = GeneratedCodeView;

    open spec fn view(&self) -> GeneratedCodeView {
        GeneratedCodeView {
            preamble: self.preamble.deep_view(),
            code_blocks: self.code_blocks.deep_view(),
        }
    }
}

impl GeneratedCode {
    /// A fresh, empty accumulator for one source file.
    pub fn new() -> (r: GeneratedCode)
        ensures
            r@.preamble == Seq::<Seq<char>>::empty(),
            r@.code_blocks == Seq::<Seq<char>>::empty(),
    {
        let r = GeneratedCode { preamble: Vec::new(), code_blocks: Vec::new() };
        proof {
            assert(r@.preamble =~= Seq::<Seq<char>>::empty());
            assert(r@.code_blocks =~= Seq::<Seq<char>>::empty());
        }
        r
    }

    /// Appends one preamble fragment; nothing already appended moves.
    pub fn add_preamble(&mut self, fragment: String)
        ensures
            final(self)@.preamble == old(self)@.preamble.push(fragment@),
            final(self)@.code_blocks == old(self)@.code_blocks,
    {
        self.preamble.push(fragment);
        proof {
            assert(self@.preamble =~= old(self)@.preamble.push(fragment@));
        }
    }

    /// Appends one code-block fragment; nothing already appended moves.
    pub fn add_code_block(&mut self, fragment: String)
        ensures
            final(self)@.code_blocks == old(self)@.code_blocks.push(fragment@),
            final(self)@.preamble == old(self)@.preamble,
    {
        self.code_blocks.push(fragment);
        proof {
            assert(self@.code_blocks =~= old(self)@.code_blocks.push(fragment@));
        }
    }

    /// Consolidates the accumulated fragments into a single string: the
    /// preamble fragments first, then every code block, in order.
    pub fn into_string(self) -> (r: String)
        ensures
            r@ == concat_all(self@.preamble) + concat_all(self@.code_blocks),
    {
        let ghost p = self@.preamble;
        let ghost c = self@.code_blocks;
        let mut out = String::new();
        proof {
            assert(p.take(0) =~= Seq::<Seq<char>>::empty());
            assert(out@ =~= concat_all(p.take(0)));
        }
        for i in 0..self.preamble.len()
            invariant
                p == self.preamble.deep_view(),
                out@ == concat_all(p.take(i as int)),
        {
            out.append(self.preamble[i].as_str());
            proof {
                lemma_take_step(p, i as int);
                assert(p[i as int] == self.preamble[i as int]@);
            }
        }
        proof {
            assert(p.take(self.preamble.len() as int) =~= p);
            assert(c.take(0) =~= Seq::<Seq<char>>::empty());
            assert(out@ =~= concat_all(p) + concat_all(c.take(0)));
        }
        for i in 0..self.code_blocks.len()
            invariant
                p == self.preamble.deep_view(),
                c == self.code_blocks.deep_view(),
                out@ == concat_all(p) + concat_all(c.take(i as int)),
        {
            out.append(self.code_blocks[i].as_str());
            proof {
                lemma_take_step(c, i as int);
                assert(c[i as int] == self.code_blocks[i as int]@);
                assert(out@ =~= concat_all(p) + concat_all(c.take(i as int + 1)));
            }
        }
        proof {
            assert(c.take(self.code_blocks.len() as int) =~= c);
        }
        out
    }
}

/// The header prepended to every generated file, naming the generating tool
/// (with its externally supplied build identifier) and the originating input
/// file.
pub open spec fn preamble_view(version: Seq<char>, filename: Seq<char>) -> Seq<char> {
    "// Copyright (c) ZeroC, Inc.\n\n// <auto-generated/>\n// slicec-cs version: '"@ + version
        + "'\n// Generated from file: '"@ + filename
        + ".slice'\n\n#nullable enable\n\n#pragma warning disable 1591 // Missing XML Comment\n#pragma warning disable 1573 // Parameter has no matching param tag in the XML comment\n\nusing IceRpc.Slice;\n\n[assembly:IceRpc.Slice.Slice(\""@
        + filename + ".slice\")]"@
}

/// Builds the preamble for one source file. The version is the build
/// identifier of the generating tool, supplied by its surroundings.
pub fn preamble(slice_file: &SliceFile, version: &str) -> (r: String)
    ensures
        r@ == preamble_view(version@, slice_file@.filename),
{
    let mut r = String::new();
    r.append("// Copyright (c) ZeroC, Inc.\n\n// <auto-generated/>\n// slicec-cs version: '");
    r.append(version);
    r.append("'\n// Generated from file: '");
    r.append(slice_file.filename.as_str());
    r.append(
        ".slice'\n\n#nullable enable\n\n#pragma warning disable 1591 // Missing XML Comment\n#pragma warning disable 1573 // Parameter has no matching param tag in the XML comment\n\nusing IceRpc.Slice;\n\n[assembly:IceRpc.Slice.Slice(\"",
    );
    r.append(slice_file.filename.as_str());
    r.append(".slice\")]");
    proof {
        assert(r@ =~= preamble_view(version@, slice_file@.filename));
    }
    r
}

/// Where the generated text for a file goes: the configured output directory
/// (the current directory when none is configured) joined with the source
/// file's name plus the target language's conventional extension.
pub open spec fn output_path_view(output_dir: Option<Seq<char>>, filename: Seq<char>) -> Seq<char> {
    (match output_dir {
        Some(dir) => dir,
        None => "."@,
    }) + "/"@ + filename + ".cs"@
}

/// Builds the destination path for one source file's generated text.
pub fn output_path(output_dir: &Option<String>, filename: &str) -> (r: String)
    ensures
        r@ == output_path_view(output_dir.deep_view(), filename@),
{
    let mut r = String::new();
    match output_dir {
        Some(dir) => r.append(dir.as_str()),
        None => r.append("."),
    }
    r.append("/");
    r.append(filename);
    r.append(".cs");
    proof {
        assert(r@ =~= output_path_view(output_dir.deep_view(), filename@));
    }
    r
}

/// What one emission traversal contributed for one file: zero or more text
/// fragments, in the order it appended them.
#[derive(Debug, PartialEq, Eq)]
pub struct FileEmissions {
    pub fragments: Vec<Vec<String>>,
}

impl View for FileEmissions {
    type V = Seq<Seq<Seq<char>>>;

    open spec fn view(&self) -> Seq<Seq<Seq<char>>> {
        self.fragments.deep_view()
    }
}

impl DeepView for FileEmissions {
    type V = Seq<Seq<Seq<char>>>;

    open spec fn deep_view(&self) -> Seq<Seq<Seq<char>>> {
        self.view()
    }
}

/// How many emission traversals there are, and hence how many fragment lists
/// each file's emissions carry: struct, proxy, dispatch, exception, enum,
/// class and module generation, in that fixed order.
pub const TRAVERSAL_COUNT: usize = 7;

/// The code blocks of one file once every traversal has run: the fragment
/// lists flattened in traversal-execution order.
pub open spec fn flatten_fragments(fragments: Seq<Seq<Seq<char>>>) -> Seq<Seq<char>>
    decreases fragments.len(),
{
    if fragments.len() == 0 {
        Seq::empty()
    } else {
        flatten_fragments(fragments.drop_last()) + fragments.last()
    }
}

/// The whole text blob generated for one file: its preamble, then every
/// fragment of every traversal, in the fixed order.
pub open spec fn emitted_content(
    filename: Seq<char>,
    version: Seq<char>,
    fragments: Seq<Seq<Seq<char>>>,
) -> Seq<char> {
    preamble_view(version, filename) + concat_all(flatten_fragments(fragments))
}

/// Lends the accumulator to one traversal, which appends its fragments in
/// order; traversals never observe each other's output, so each call only
/// ever extends the block list.
pub fn run_traversal(generated_code: &mut GeneratedCode, fragments: &Vec<String>)
    ensures
        final(generated_code)@.preamble == old(generated_code)@.preamble,
        final(generated_code)@.code_blocks == old(generated_code)@.code_blocks
            + fragments.deep_view(),
{
    let ghost f = fragments.deep_view();
    proof {
        assert(generated_code@.code_blocks =~= old(generated_code)@.code_blocks + f.take(0));
    }
    for i in 0..fragments.len()
        invariant
            f == fragments.deep_view(),
            generated_code@.preamble == old(generated_code)@.preamble,
            generated_code@.code_blocks == old(generated_code)@.code_blocks + f.take(i as int),
    {
        generated_code.add_code_block(fragments[i].clone());
        proof {
            assert(f[i as int] == fragments[i as int]@);
            assert(f.take(i as int + 1).drop_last() =~= f.take(i as int));
            assert(generated_code@.code_blocks =~= old(generated_code)@.code_blocks + f.take(
                i as int + 1,
            ));
        }
    }
    proof {
        assert(f.take(fragments.len() as int) =~= f);
    }
}

/// Runs the emission traversals for one source file, in the fixed order,
/// against one fresh accumulator, and consolidates the result into the text
/// blob to be written.
pub fn emit_file(slice_file: &SliceFile, version: &str, emissions: &FileEmissions) -> (r: String)
    requires
        emissions.fragments.len() == TRAVERSAL_COUNT,
    ensures
        r@ == emitted_content(slice_file@.filename, version@, emissions@),
{
    let ghost em = emissions@;
    let mut generated_code = GeneratedCode::new();
    generated_code.add_preamble(preamble(slice_file, version));
    proof {
        assert(em.take(0) =~= Seq::<Seq<Seq<char>>>::empty());
        assert(generated_code@.code_blocks =~= flatten_fragments(em.take(0)));
    }
    for t in 0..emissions.fragments.len()
        invariant
            em == emissions@,
            generated_code@.preamble == Seq::<Seq<char>>::empty().push(
                preamble_view(version@, slice_file@.filename),
            ),
            generated_code@.code_blocks == flatten_fragments(em.take(t as int)),
    {
        run_traversal(&mut generated_code, &emissions.fragments[t]);
        proof {
            lemma_take_step(em, t as int);
            assert(em[t as int] == emissions.fragments[t as int].deep_view());
            assert(generated_code@.code_blocks =~= flatten_fragments(em.take(t as int + 1)));
        }
    }
    proof {
        assert(em.take(emissions.fragments.len() as int) =~= em);
    }
    let r = generated_code.into_string();
    proof {
        let pre = Seq::<Seq<char>>::empty().push(preamble_view(version@, slice_file@.filename));
        assert(pre.drop_last() =~= Seq::<Seq<char>>::empty());
        assert(concat_all(pre.drop_last()) == concat_all(Seq::<Seq<char>>::empty()));
        assert(concat_all(Seq::<Seq<char>>::empty()) =~= Seq::<char>::empty());
        assert(pre.last() == preamble_view(version@, slice_file@.filename));
        assert(concat_all(pre) =~= preamble_view(version@, slice_file@.filename));
        assert(r@ =~= emitted_content(slice_file@.filename, version@, emissions@));
    }
    r
}

} // verus!
