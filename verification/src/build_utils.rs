//! Packing assets at build time: the settings, and the asset packer's
//! command line.
use crate::outside::str_equals;
use vstd::prelude::*;
use vstd::string::StringExecFns;

verus! {

/// Where assets are read from, where the archive goes, and whether to
/// compress.
pub struct PackAssetsConfig {
    pub assets_dir: String,
    pub output_pak: String,
    pub compress: bool,
}

impl Default for PackAssetsConfig {
    fn default() -> (r: Self)
        ensures
            r.assets_dir@ == "assets"@,
            r.output_pak@ == "game_assets.pak"@,
            r.compress,
    {
        PackAssetsConfig {
            assets_dir: String::from_str("assets"),
            output_pak: String::from_str("game_assets.pak"),
            compress: true,
        }
    }
}

/// The arguments that run the asset packer for `input` and `output`.
pub open spec fn packer_args_spec(input: Seq<char>, output: Seq<char>, compress: bool) -> Seq<Seq<char>> {
    let base = seq![
        "run"@,
        "--package"@,
        "resonance"@,
        "--bin"@,
        "asset-packer"@,
        "--release"@,
        "--"@,
        "--input"@,
        input,
        "--output"@,
        output,
    ];
    if compress {
        base.push("--compress"@)
    } else {
        base
    }
}

impl PackAssetsConfig {
    /// The default settings: `assets` into `game_assets.pak`, compressed.
    pub fn new() -> (r: Self)
        ensures
            r.assets_dir@ == "assets"@,
            r.output_pak@ == "game_assets.pak"@,
            r.compress,
    {
        Self::default()
    }

    /// The same settings, reading from `dir`.
    pub fn assets_dir(self, dir: String) -> (r: Self)
        ensures
            r.assets_dir@ == dir@,
            r.output_pak@ == self.output_pak@,
            r.compress == self.compress,
    {
        PackAssetsConfig { assets_dir: dir, output_pak: self.output_pak, compress: self.compress }
    }

    /// The same settings, writing to `path`.
    pub fn output_pak(self, path: String) -> (r: Self)
        ensures
            r.assets_dir@ == self.assets_dir@,
            r.output_pak@ == path@,
            r.compress == self.compress,
    {
        PackAssetsConfig { assets_dir: self.assets_dir, output_pak: path, compress: self.compress }
    }

    /// The same settings, compressing as given.
    pub fn compress(self, compress: bool) -> (r: Self)
        ensures
            r.assets_dir@ == self.assets_dir@,
            r.output_pak@ == self.output_pak@,
            r.compress == compress,
    {
        PackAssetsConfig { assets_dir: self.assets_dir, output_pak: self.output_pak, compress }
    }

    /// The `cargo` arguments that run the asset packer with these settings.
    pub fn packer_args(&self) -> (r: Vec<String>)
        ensures
            r@.map_values(|s: String| s@) == packer_args_spec(self.assets_dir@, self.output_pak@, self.compress),
    {
        let mut args: Vec<String> = Vec::new();
        args.push(String::from_str("run"));
        args.push(String::from_str("--package"));
        args.push(String::from_str("resonance"));
        args.push(String::from_str("--bin"));
        args.push(String::from_str("asset-packer"));
        args.push(String::from_str("--release"));
        args.push(String::from_str("--"));
        args.push(String::from_str("--input"));
        args.push(self.assets_dir.clone());
        args.push(String::from_str("--output"));
        args.push(self.output_pak.clone());
        if self.compress {
            args.push(String::from_str("--compress"));
        }
        assert(args@.map_values(|s: String| s@) =~= packer_args_spec(
            self.assets_dir@,
            self.output_pak@,
            self.compress,
        ));
        args
    }
}

/// What the asset packer's command line asks for.
#[derive(Debug)]
pub enum PackerCommand {
    /// Print the usage and stop.
    Help,
    /// Pack the directory `input` into the archive `output`.
    Pack { input: String, output: String, compress: bool },
}

/// Why the asset packer's command line was refused.
#[derive(Debug, Clone, PartialEq, Eq)]
pub enum PackerArgsError {
    /// Fewer than two arguments.
    TooFewArguments,
    /// `--input` was last, with no path after it.
    InputNeedsPath,
    /// `--output` was last, with no path after it.
    OutputNeedsPath,
    /// An argument that is no option.
    UnknownArgument(String),
    /// No input directory was given.
    InputRequired,
    /// No output file was given.
    OutputRequired,
}

/// The outcome of reading the packer's command line, as plain values.
pub enum PackerParse {
    Help,
    Pack(Seq<char>, Seq<char>, bool),
    TooFewArguments,
    InputNeedsPath,
    OutputNeedsPath,
    UnknownArgument(Seq<char>),
    InputRequired,
    OutputRequired,
}

/// Reads the options from argument `i` on, given what was read before it.
/// Options may come in any order; a later one overrides an earlier one.
pub open spec fn scan_packer_args(
    args: Seq<Seq<char>>,
    i: int,
    input: Seq<char>,
    output: Seq<char>,
    compress: bool,
) -> PackerParse
    decreases args.len() - i,
{
    if i < 0 || i >= args.len() {
        if input.len() == 0 {
            PackerParse::InputRequired
        } else if output.len() == 0 {
            PackerParse::OutputRequired
        } else {
            PackerParse::Pack(input, output, compress)
        }
    } else {
        let a = args[i];
        if a == "--input"@ || a == "-i"@ {
            if i + 1 >= args.len() {
                PackerParse::InputNeedsPath
            } else {
                scan_packer_args(args, i + 2, args[i + 1], output, compress)
            }
        } else if a == "--output"@ || a == "-o"@ {
            if i + 1 >= args.len() {
                PackerParse::OutputNeedsPath
            } else {
                scan_packer_args(args, i + 2, input, args[i + 1], compress)
            }
        } else if a == "--compress"@ || a == "-c"@ {
            scan_packer_args(args, i + 1, input, output, true)
        } else if a == "--help"@ || a == "-h"@ {
            PackerParse::Help
        } else {
            PackerParse::UnknownArgument(a)
        }
    }
}

/// What the packer's command line `args` (program name first) asks for.
pub open spec fn parse_packer_args_spec(args: Seq<Seq<char>>) -> PackerParse {
    if args.len() < 3 {
        PackerParse::TooFewArguments
    } else {
        scan_packer_args(args, 1, Seq::empty(), Seq::empty(), false)
    }
}

/// A command or refusal, as plain values.
pub open spec fn packer_outcome(r: &Result<PackerCommand, PackerArgsError>) -> PackerParse {
    match r {
        Ok(PackerCommand::Help) => PackerParse::Help,
        Ok(PackerCommand::Pack { input, output, compress }) => PackerParse::Pack(input@, output@, *compress),
        Err(PackerArgsError::TooFewArguments) => PackerParse::TooFewArguments,
        Err(PackerArgsError::InputNeedsPath) => PackerParse::InputNeedsPath,
        Err(PackerArgsError::OutputNeedsPath) => PackerParse::OutputNeedsPath,
        Err(PackerArgsError::UnknownArgument(a)) => PackerParse::UnknownArgument(a@),
        Err(PackerArgsError::InputRequired) => PackerParse::InputRequired,
        Err(PackerArgsError::OutputRequired) => PackerParse::OutputRequired,
    }
}

/// Reads the asset packer's command line: `--input`/`-i` and
/// `--output`/`-o` each take a path, `--compress`/`-c` turns compression
/// on, `--help`/`-h` asks for the usage.
pub fn parse_packer_args(args: &Vec<String>) -> (r: Result<PackerCommand, PackerArgsError>)
    ensures
        packer_outcome(&r) == parse_packer_args_spec(args@.map_values(|s: String| s@)),
{
    let ghost sargs = args@.map_values(|s: String| s@);
    if args.len() < 3 {
        return Err(PackerArgsError::TooFewArguments);
    }
    let mut input = String::new();
    let mut output = String::new();
    let mut compress = false;
    let mut i: usize = 1;
    while i < args.len()
        invariant
            1 <= i <= args@.len() + 1,
            sargs == args@.map_values(|s: String| s@),
            parse_packer_args_spec(sargs) == scan_packer_args(sargs, i as int, input@, output@, compress),
        decreases args@.len() + 1 - i,
    {
        let a = args[i].as_str();
        assert(a@ == sargs[i as int]);
        if str_equals(a, "--input") || str_equals(a, "-i") {
            if i + 1 >= args.len() {
                return Err(PackerArgsError::InputNeedsPath);
            }
            input = args[i + 1].clone();
            assert(input@ == sargs[i + 1]);
            i = i + 2;
        } else if str_equals(a, "--output") || str_equals(a, "-o") {
            if i + 1 >= args.len() {
                return Err(PackerArgsError::OutputNeedsPath);
            }
            output = args[i + 1].clone();
            assert(output@ == sargs[i + 1]);
            i = i + 2;
        } else if str_equals(a, "--compress") || str_equals(a, "-c") {
            compress = true;
            i = i + 1;
        } else if str_equals(a, "--help") || str_equals(a, "-h") {
            return Ok(PackerCommand::Help);
        } else {
            return Err(PackerArgsError::UnknownArgument(args[i].clone()));
        }
    }
    if input.as_str().is_empty() {
        return Err(PackerArgsError::InputRequired);
    }
    if output.as_str().is_empty() {
        return Err(PackerArgsError::OutputRequired);
    }
    Ok(PackerCommand::Pack { input, output, compress })
}

} // verus!
