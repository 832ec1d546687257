//! File names and converter invocations for the image benchmarks.

use crate::command::{Invocation, InvocationView};
use crate::rng::{random_colour, Colour};
use crate::text::{
    decimal, decimal_string, lemma_decimal_injective, lemma_decimal_value,
    lemma_digits_end_at_first_other, lemma_same_start, lemma_zero_padded_injective,
    lemma_zero_padded_value, push_str, push_text, same_text, zero_padded, zero_padded_string,
};
use vstd::prelude::*;
use vstd::string::StringExecFns;

verus! {

/// `<dir>/image_<index, three digits or more>.<ext>`
pub open spec fn image_path_spec(dir: Seq<char>, index: nat, ext: Seq<char>) -> Seq<char> {
    dir + "/image_"@ + zero_padded(index, 3) + "."@ + ext
}

/// `<dir>/image_<index, three digits or more>_q<quality>.webp`
pub open spec fn quality_path_spec(dir: Seq<char>, index: nat, quality: nat) -> Seq<char> {
    dir + "/image_"@ + zero_padded(index, 3) + "_q"@ + decimal(quality) + ".webp"@
}

/// `xc:rgb(<r>,<g>,<b>)`, the canvas description understood by the converter.
pub open spec fn canvas_spec(colour: Colour) -> Seq<char> {
    "xc:rgb("@ + decimal(colour.r as nat) + ","@ + decimal(colour.g as nat) + ","@ + decimal(
        colour.b as nat,
    ) + ")"@
}

/// The invocation that fills a 1024x1024 canvas with `colour`, adds random
/// noise and writes the result as the PNG image number `index` under `dir`.
pub open spec fn noise_command_spec(dir: Seq<char>, index: nat, colour: Colour) -> InvocationView {
    InvocationView {
        program: "convert"@,
        args: seq![
            "-size"@,
            "1024x1024"@,
            canvas_spec(colour),
            "+noise"@,
            "Random"@,
            image_path_spec(dir, index, "png"@),
        ],
        quiet: false,
    }
}

/// Whether images of this format are written with an explicit quality of 100.
pub open spec fn wants_full_quality(format: Seq<char>) -> bool {
    format == "jpg"@ || format == "webp"@
}

/// The invocation that converts image number `index` under `dir` from one
/// format to another, at full quality where the target format has a quality.
pub open spec fn conversion_command_spec(
    dir: Seq<char>,
    from: Seq<char>,
    to: Seq<char>,
    index: nat,
) -> InvocationView {
    InvocationView {
        program: "convert"@,
        args: if wants_full_quality(to) {
            seq![image_path_spec(dir, index, from), "-quality"@, "100"@, image_path_spec(dir, index, to)]
        } else {
            seq![image_path_spec(dir, index, from), image_path_spec(dir, index, to)]
        },
        quiet: false,
    }
}

/// The invocation that converts PNG image number `index` under `dir` to WebP
/// at the given quality.
pub open spec fn quality_command_spec(dir: Seq<char>, quality: nat, index: nat) -> InvocationView {
    InvocationView {
        program: "convert"@,
        args: seq![
            image_path_spec(dir, index, "png"@),
            "-quality"@,
            decimal(quality),
            quality_path_spec(dir, index, quality),
        ],
        quiet: false,
    }
}

/// The name of an image under one directory tells its number and its
/// format: two names are the same only if both agree. Workers on disjoint
/// shards therefore never write to the same file.
pub proof fn lemma_image_paths_injective(
    dir: Seq<char>,
    i: nat,
    ext: Seq<char>,
    j: nat,
    other: Seq<char>,
)
    requires
        image_path_spec(dir, i, ext) == image_path_spec(dir, j, other),
    ensures
        i == j,
        ext == other,
{
    reveal_strlit(".");
    let before = dir + "/image_"@;
    let x = "."@ + ext;
    let y = "."@ + other;
    assert(image_path_spec(dir, i, ext) =~= before + (zero_padded(i, 3) + x));
    assert(image_path_spec(dir, j, other) =~= before + (zero_padded(j, 3) + y));
    lemma_same_start(before, zero_padded(i, 3) + x, zero_padded(j, 3) + y);
    lemma_zero_padded_value(i, 3);
    lemma_zero_padded_value(j, 3);
    assert(x[0] == '.' && y[0] == '.');
    lemma_digits_end_at_first_other(zero_padded(i, 3), x, zero_padded(j, 3), y);
    lemma_same_start("."@, ext, other);
}

/// Images with different numbers have different names.
pub proof fn lemma_image_paths_distinct(dir: Seq<char>, i: nat, j: nat, ext: Seq<char>)
    requires
        i != j,
    ensures
        image_path_spec(dir, i, ext) != image_path_spec(dir, j, ext),
{
    if image_path_spec(dir, i, ext) == image_path_spec(dir, j, ext) {
        lemma_image_paths_injective(dir, i, ext, j, ext);
    }
}

/// The name of a rendition under one directory tells the image's number
/// and the quality: two names are the same only if both agree.
pub proof fn lemma_quality_paths_injective(dir: Seq<char>, i: nat, quality: nat, j: nat, other: nat)
    requires
        quality_path_spec(dir, i, quality) == quality_path_spec(dir, j, other),
    ensures
        i == j,
        quality == other,
{
    reveal_strlit("_q");
    reveal_strlit(".webp");
    let before = dir + "/image_"@;
    let x = "_q"@ + (decimal(quality) + ".webp"@);
    let y = "_q"@ + (decimal(other) + ".webp"@);
    assert(quality_path_spec(dir, i, quality) =~= before + (zero_padded(i, 3) + x));
    assert(quality_path_spec(dir, j, other) =~= before + (zero_padded(j, 3) + y));
    lemma_same_start(before, zero_padded(i, 3) + x, zero_padded(j, 3) + y);
    lemma_zero_padded_value(i, 3);
    lemma_zero_padded_value(j, 3);
    assert(x[0] == '_' && y[0] == '_');
    lemma_digits_end_at_first_other(zero_padded(i, 3), x, zero_padded(j, 3), y);
    lemma_zero_padded_injective(i, j, 3);
    lemma_same_start("_q"@, decimal(quality) + ".webp"@, decimal(other) + ".webp"@);
    lemma_decimal_value(quality);
    lemma_decimal_value(other);
    assert(".webp"@[0] == '.');
    lemma_digits_end_at_first_other(decimal(quality), ".webp"@, decimal(other), ".webp"@);
    lemma_decimal_injective(quality, other);
}

/// Renditions of images with different numbers at one quality have different names.
pub proof fn lemma_quality_paths_distinct(dir: Seq<char>, i: nat, j: nat, quality: nat)
    requires
        i != j,
    ensures
        quality_path_spec(dir, i, quality) != quality_path_spec(dir, j, quality),
{
    if quality_path_spec(dir, i, quality) == quality_path_spec(dir, j, quality) {
        lemma_quality_paths_injective(dir, i, quality, j, quality);
    }
}

/// No rendition has the name of an image of the same directory.
pub proof fn lemma_rendition_is_no_image(
    dir: Seq<char>,
    i: nat,
    ext: Seq<char>,
    j: nat,
    quality: nat,
)
    ensures
        image_path_spec(dir, i, ext) != quality_path_spec(dir, j, quality),
{
    if image_path_spec(dir, i, ext) == quality_path_spec(dir, j, quality) {
        reveal_strlit("_q");
        reveal_strlit(".");
        let before = dir + "/image_"@;
        let x = "."@ + ext;
        let y = "_q"@ + (decimal(quality) + ".webp"@);
        assert(image_path_spec(dir, i, ext) =~= before + (zero_padded(i, 3) + x));
        assert(quality_path_spec(dir, j, quality) =~= before + (zero_padded(j, 3) + y));
        lemma_same_start(before, zero_padded(i, 3) + x, zero_padded(j, 3) + y);
        lemma_zero_padded_value(i, 3);
        lemma_zero_padded_value(j, 3);
        assert(x[0] == '.' && y[0] == '_');
        lemma_digits_end_at_first_other(zero_padded(i, 3), x, zero_padded(j, 3), y);
    }
}

/// Name of image number `index` in format `ext` under `dir`.
pub fn image_path(dir: &str, index: u32, ext: &str) -> (path: String)
    ensures
        path@ == image_path_spec(dir@, index as nat, ext@),
{
    let mut path: String = String::from_str(dir);
    path.append("/image_");
    path.append(zero_padded_string(index as u64, 3).as_str());
    path.append(".");
    path.append(ext);
    path
}

/// Name of the WebP rendition of image number `index` at `quality`.
pub fn quality_path(dir: &str, index: u32, quality: u32) -> (path: String)
    ensures
        path@ == quality_path_spec(dir@, index as nat, quality as nat),
{
    let mut path: String = String::from_str(dir);
    path.append("/image_");
    path.append(zero_padded_string(index as u64, 3).as_str());
    path.append("_q");
    path.append(decimal_string(quality as u64).as_str());
    path.append(".webp");
    path
}

fn canvas(colour: Colour) -> (text: String)
    ensures
        text@ == canvas_spec(colour),
{
    let mut text: String = String::from_str("xc:rgb(");
    text.append(decimal_string(colour.r as u64).as_str());
    text.append(",");
    text.append(decimal_string(colour.g as u64).as_str());
    text.append(",");
    text.append(decimal_string(colour.b as u64).as_str());
    text.append(")");
    text
}

/// Builds the invocation that generates noise image number `index`.
pub fn noise_command(dir: &str, index: u32, colour: Colour) -> (command: Invocation)
    ensures
        command@ == noise_command_spec(dir@, index as nat, colour),
{
    let mut args: Vec<String> = Vec::new();
    push_str(&mut args, "-size");
    push_str(&mut args, "1024x1024");
    push_text(&mut args, canvas(colour));
    push_str(&mut args, "+noise");
    push_str(&mut args, "Random");
    push_text(&mut args, image_path(dir, index, "png"));
    let command = Invocation { program: String::from_str("convert"), args, quiet: false };
    assert(command@.args =~= noise_command_spec(dir@, index as nat, colour).args);
    command
}

/// Draws a fill colour at random and builds the invocation that generates
/// noise image number `index` in that colour. Whatever colour comes up, the
/// invocation is the one that `noise_command` builds for it.
pub fn random_noise_command(dir: &str, index: u32) -> (drawn: (Colour, Invocation))
    ensures
        drawn.1@ == noise_command_spec(dir@, index as nat, drawn.0),
{
    let colour: Colour = random_colour();
    (colour, noise_command(dir, index, colour))
}

/// Builds the invocation that converts image number `index` between formats.
pub fn conversion_command(dir: &str, from: &str, to: &str, index: u32) -> (command: Invocation)
    ensures
        command@ == conversion_command_spec(dir@, from@, to@, index as nat),
{
    let mut args: Vec<String> = Vec::new();
    push_text(&mut args, image_path(dir, index, from));
    if same_text(to, "jpg") || same_text(to, "webp") {
        push_str(&mut args, "-quality");
        push_str(&mut args, "100");
    }
    push_text(&mut args, image_path(dir, index, to));
    let command = Invocation { program: String::from_str("convert"), args, quiet: false };
    assert(command@.args =~= conversion_command_spec(dir@, from@, to@, index as nat).args);
    command
}

/// Builds the invocation that converts image number `index` to WebP at `quality`.
pub fn quality_command(dir: &str, quality: u32, index: u32) -> (command: Invocation)
    ensures
        command@ == quality_command_spec(dir@, quality as nat, index as nat),
{
    let mut args: Vec<String> = Vec::new();
    push_text(&mut args, image_path(dir, index, "png"));
    push_str(&mut args, "-quality");
    push_text(&mut args, decimal_string(quality as u64));
    push_text(&mut args, quality_path(dir, index, quality));
    let command = Invocation { program: String::from_str("convert"), args, quiet: false };
    assert(command@.args =~= quality_command_spec(dir@, quality as nat, index as nat).args);
    command
}

} // verus!
