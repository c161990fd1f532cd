//! Planning the external painting commands.
//!
//! The dispatcher never runs a process itself: it turns a compositor, a list
//! of requested outputs, the kill flag and a resolved image path into the
//! exact sequence of invocations the binary must issue, in order. Running
//! them is the binary's job; failure of one invocation stops the sequence
//! there (a best-effort invocation excepted).

use crate::compositor::Compositor;
use crate::error::Error;
use vstd::prelude::*;

verus! {

/// One external command to issue: a program, its arguments in order, whether
/// to wait for it to exit, and whether its failure is ignored.
pub struct Invocation {
    /// The program to invoke.
    pub program: String,
    /// The arguments handed to it, in order.
    pub args: Vec<String>,
    /// Whether the caller waits for the process to exit before going on.
    /// A cleared flag means fire-and-forget: the process stays attached to
    /// the display for the life of the session.
    pub wait: bool,
    /// Whether a failure of this invocation is ignored rather than reported.
    pub best_effort: bool,
}

/// The mathematical shape of one invocation.
#[verifier::ext_equal]
pub ghost struct InvocationModel {
    pub program: Seq<char>,
    pub args: Seq<Seq<char>>,
    pub wait: bool,
    pub best_effort: bool,
}

impl View for Invocation {
    type V = InvocationModel;

    open spec fn view(&self) -> InvocationModel {
        InvocationModel {
            program: self.program@,
            args: self.args.deep_view(),
            wait: self.wait,
            best_effort: self.best_effort,
        }
    }
}

/// `swaybg -o <output> -i <image> -m fill`, spawned and not waited on.
pub open spec fn swaybg_model(output: Seq<char>, image: Seq<char>) -> InvocationModel {
    InvocationModel {
        program: "swaybg"@,
        args: seq!["-o"@, output, "-i"@, image, "-m"@, "fill"@],
        wait: false,
        best_effort: false,
    }
}

/// `hsetroot -screens <output> -fill <image>`, waited on.
pub open spec fn hsetroot_screen_model(output: Seq<char>, image: Seq<char>) -> InvocationModel {
    InvocationModel {
        program: "hsetroot"@,
        args: seq!["-screens"@, output, "-fill"@, image],
        wait: true,
        best_effort: false,
    }
}

/// `hsetroot -fill <image>`, the single-screen form, waited on.
pub open spec fn hsetroot_default_model(image: Seq<char>) -> InvocationModel {
    InvocationModel { program: "hsetroot"@, args: seq!["-fill"@, image], wait: true, best_effort: false }
}

/// `pkill swaybg`, waited on, its failure ignored.
pub open spec fn pkill_model() -> InvocationModel {
    InvocationModel { program: "pkill"@, args: seq!["swaybg"@], wait: true, best_effort: true }
}

/// The full sequence of invocations for one dispatch: for X11 one `hsetroot`
/// per requested output (single-screen form when none is requested); for
/// Sway, first the optional `pkill`, then one `swaybg` per requested output
/// (the wildcard output `*` when none is requested).
pub open spec fn plan_model(
    comp: Compositor,
    outputs: Seq<Seq<char>>,
    kill: bool,
    image: Seq<char>,
) -> Seq<InvocationModel> {
    match comp {
        Compositor::X11 => if outputs.len() == 0 {
            seq![hsetroot_default_model(image)]
        } else {
            Seq::new(outputs.len(), |i: int| hsetroot_screen_model(outputs[i], image))
        },
        Compositor::Sway => {
            let paints = if outputs.len() == 0 {
                seq![swaybg_model("*"@, image)]
            } else {
                Seq::new(outputs.len(), |i: int| swaybg_model(outputs[i], image))
            };
            if kill {
                seq![pkill_model()] + paints
            } else {
                paints
            }
        },
    }
}

/// Builds the `swaybg` invocation for one output.
fn swaybg_invocation(output: &str, image: &str) -> (r: Invocation)
    ensures
        r@ == swaybg_model(output@, image@),
{
    let mut args: Vec<String> = Vec::new();
    args.push(String::from_str("-o"));
    args.push(String::from_str(output));
    args.push(String::from_str("-i"));
    args.push(String::from_str(image));
    args.push(String::from_str("-m"));
    args.push(String::from_str("fill"));
    proof {
        assert(args.deep_view() =~= seq!["-o"@, output@, "-i"@, image@, "-m"@, "fill"@]);
    }
    let r = Invocation {
        program: String::from_str("swaybg"),
        args,
        wait: false,
        best_effort: false,
    };
    proof {
        assert(r@ =~= swaybg_model(output@, image@));
    }
    r
}

/// Builds the per-screen `hsetroot` invocation for one output.
fn hsetroot_screen_invocation(output: &str, image: &str) -> (r: Invocation)
    ensures
        r@ == hsetroot_screen_model(output@, image@),
{
    let mut args: Vec<String> = Vec::new();
    args.push(String::from_str("-screens"));
    args.push(String::from_str(output));
    args.push(String::from_str("-fill"));
    args.push(String::from_str(image));
    proof {
        assert(args.deep_view() =~= seq!["-screens"@, output@, "-fill"@, image@]);
    }
    let r = Invocation {
        program: String::from_str("hsetroot"),
        args,
        wait: true,
        best_effort: false,
    };
    proof {
        assert(r@ =~= hsetroot_screen_model(output@, image@));
    }
    r
}

/// Builds the single-screen `hsetroot` invocation.
fn hsetroot_default_invocation(image: &str) -> (r: Invocation)
    ensures
        r@ == hsetroot_default_model(image@),
{
    let mut args: Vec<String> = Vec::new();
    args.push(String::from_str("-fill"));
    args.push(String::from_str(image));
    proof {
        assert(args.deep_view() =~= seq!["-fill"@, image@]);
    }
    let r = Invocation { program: String::from_str("hsetroot"), args, wait: true, best_effort: false };
    proof {
        assert(r@ =~= hsetroot_default_model(image@));
    }
    r
}

/// Builds the best-effort `pkill swaybg` invocation.
fn pkill_invocation() -> (r: Invocation)
    ensures
        r@ == pkill_model(),
{
    let mut args: Vec<String> = Vec::new();
    args.push(String::from_str("swaybg"));
    proof {
        assert(args.deep_view() =~= seq!["swaybg"@]);
    }
    let r = Invocation { program: String::from_str("pkill"), args, wait: true, best_effort: true };
    proof {
        assert(r@ =~= pkill_model());
    }
    r
}

/// Plans the whole dispatch: the invocations to issue, in order.
pub fn plan(comp: Compositor, outputs: &Vec<String>, kill: bool, image: &str) -> (r: Vec<
    Invocation,
>)
    ensures
        r@.len() == plan_model(comp, outputs.deep_view(), kill, image@).len(),
        forall|i: int|
            0 <= i < r@.len() ==> #[trigger] r@[i]@ == plan_model(
                comp,
                outputs.deep_view(),
                kill,
                image@,
            )[i],
{
    let ghost model = plan_model(comp, outputs.deep_view(), kill, image@);
    let mut r: Vec<Invocation> = Vec::new();
    match comp {
        Compositor::X11 => {
            if outputs.len() == 0 {
                r.push(hsetroot_default_invocation(image));
            } else {
                let mut i: usize = 0;
                while i < outputs.len()
                    invariant
                        comp == Compositor::X11,
                        outputs.deep_view().len() != 0,
                        i <= outputs@.len(),
                        model == plan_model(comp, outputs.deep_view(), kill, image@),
                        r@.len() == i,
                        forall|k: int| 0 <= k < i ==> #[trigger] r@[k]@ == model[k],
                    decreases outputs@.len() - i,
                {
                    r.push(hsetroot_screen_invocation(outputs[i].as_str(), image));
                    i += 1;
                }
            }
        },
        Compositor::Sway => {
            let offset: usize = if kill {
                r.push(pkill_invocation());
                1
            } else {
                0
            };
            if outputs.len() == 0 {
                r.push(swaybg_invocation("*", image));
            } else {
                let mut i: usize = 0;
                while i < outputs.len()
                    invariant
                        comp == Compositor::Sway,
                        outputs.deep_view().len() != 0,
                        i <= outputs@.len(),
                        model == plan_model(comp, outputs.deep_view(), kill, image@),
                        offset == (if kill { 1usize } else { 0usize }),
                        r@.len() == i + offset,
                        forall|k: int| 0 <= k < i + offset ==> #[trigger] r@[k]@ == model[k],
                    decreases outputs@.len() - i,
                {
                    r.push(swaybg_invocation(outputs[i].as_str(), image));
                    i += 1;
                }
            }
        },
    }
    r
}

/// The kind of subcommand whose target path is validated.
#[derive(Clone, Copy, Debug, PartialEq, Eq, Structural)]
pub enum Command {
    /// `set`: paint one given image file.
    SetImage,
    /// `random`: pick an image at random from a directory.
    Random,
}

/// Checks the target path of a subcommand before anything is dispatched:
/// `set` demands an existing regular file, `random` an existing directory.
/// The two facts about the path are established by the caller.
pub fn validate_target(cmd: Command, is_file: bool, is_dir: bool) -> (r: Result<(), Error>)
    ensures
        r == match cmd {
            Command::SetImage => if is_file {
                Ok::<(), Error>(())
            } else {
                Err::<(), Error>(Error::NotAFile)
            },
            Command::Random => if is_dir {
                Ok::<(), Error>(())
            } else {
                Err::<(), Error>(Error::NotADirectory)
            },
        },
{
    match cmd {
        Command::SetImage => if is_file {
            Ok(())
        } else {
            Err(Error::NotAFile)
        },
        Command::Random => if is_dir {
            Ok(())
        } else {
            Err(Error::NotADirectory)
        },
    }
}

/// The X11 target to report when no output was requested: the configured
/// display if there is one, the literal `:0` otherwise.
pub fn default_x11_target(display: Option<&str>) -> (r: String)
    ensures
        r@ == match display {
            Some(d) => d@,
            None => ":0"@,
        },
{
    match display {
        Some(d) => String::from_str(d),
        None => String::from_str(":0"),
    }
}

} // verus!
