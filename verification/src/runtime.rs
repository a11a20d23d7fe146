//! The bundled side: what a bundle does when it is started.

use vstd::prelude::*;
use vstd::string::StringExecFns;
use crate::error::RexError;
use crate::paths::{join, same_text, spec_join, texts, texts_push, with_suffix};
use crate::trailer::{describes, find_payload_info, located, Located, PayloadInfo, PayloadInfoView};

verus! {

/// Whether the first argument after the program's name asks for the
/// runtime's help text.
pub open spec fn wants_help(args: Seq<String>) -> bool {
    args.len() > 1 && args[1]@ == "--rex-help"@
}

/// Whether the first argument after the program's name asks for the payload
/// to be unpacked into the working directory.
pub open spec fn wants_extract(args: Seq<String>) -> bool {
    args.len() > 1 && args[1]@ == "--rex-extract"@
}

/// What a started bundle does next.
#[derive(Debug)]
pub enum RunStep {
    /// Print the runtime's help text and end with code 0.
    ShowHelp,
    /// Unpack this payload into the working directory and end with code 0.
    Extract(PayloadInfo),
    /// Unpack this payload into a fresh temporary directory and run the
    /// target from there.
    Launch(PayloadInfo),
}

/// The directory of an unpacked bundle below `root`: `<name>_bundle`.
pub open spec fn spec_bundle_dir(root: Seq<char>, name: Seq<char>) -> Seq<char> {
    spec_join(root, name + "_bundle"@)
}

/// The directory of the extra executables of an unpacked bundle.
pub open spec fn spec_bin_dir(root: Seq<char>, name: Seq<char>) -> Seq<char> {
    spec_join(spec_bundle_dir(root, name), "bins"@)
}

/// The directory of the shared objects of an unpacked bundle.
pub open spec fn spec_libs_dir(root: Seq<char>, name: Seq<char>) -> Seq<char> {
    spec_join(spec_bundle_dir(root, name), "libs"@)
}

/// The target binary of an unpacked bundle.
pub open spec fn spec_target_path(root: Seq<char>, name: Seq<char>) -> Seq<char> {
    spec_join(spec_bundle_dir(root, name), name)
}

/// The glibc loader of an unpacked bundle.
pub open spec fn spec_glibc_loader(root: Seq<char>, name: Seq<char>) -> Seq<char> {
    spec_join(spec_libs_dir(root, name), "ld-linux-x86-64.so.2"@)
}

/// The musl loader of an unpacked bundle.
pub open spec fn spec_musl_loader(root: Seq<char>, name: Seq<char>) -> Seq<char> {
    spec_join(spec_libs_dir(root, name), "ld-musl-x86_64.so.1"@)
}

/// The paths of an unpacked bundle.
#[derive(Debug)]
pub struct BundleLayout {
    pub bundle_dir: String,
    pub bin_dir: String,
    pub libs_dir: String,
    pub target_path: String,
    pub glibc_loader: String,
    pub musl_loader: String,
}

impl BundleLayout {
    /// Whether these are the paths of the bundle of `name` unpacked below
    /// `root`.
    pub open spec fn is_layout_of(self, root: Seq<char>, name: Seq<char>) -> bool {
        &&& self.bundle_dir@ == spec_bundle_dir(root, name)
        &&& self.bin_dir@ == spec_bin_dir(root, name)
        &&& self.libs_dir@ == spec_libs_dir(root, name)
        &&& self.target_path@ == spec_target_path(root, name)
        &&& self.glibc_loader@ == spec_glibc_loader(root, name)
        &&& self.musl_loader@ == spec_musl_loader(root, name)
    }

    /// The paths of the bundle of `name` unpacked below `root`.
    pub fn new(root: &str, name: &str) -> (layout: BundleLayout)
        ensures
            layout.is_layout_of(root@, name@),
    {
        let dir_name: String = with_suffix(name, "_bundle");
        let bundle_dir: String = join(root, dir_name.as_str());
        let bin_dir: String = join(bundle_dir.as_str(), "bins");
        let libs_dir: String = join(bundle_dir.as_str(), "libs");
        let target_path: String = join(bundle_dir.as_str(), name);
        let glibc_loader: String = join(libs_dir.as_str(), "ld-linux-x86-64.so.2");
        let musl_loader: String = join(libs_dir.as_str(), "ld-musl-x86_64.so.1");
        BundleLayout { bundle_dir, bin_dir, libs_dir, target_path, glibc_loader, musl_loader }
    }
}

/// What the launcher has to know of the host once the payload is unpacked.
#[derive(Debug)]
pub struct LaunchProbe {
    /// Whether the target binary is in the unpacked tree.
    pub target_exists: bool,
    /// Whether the glibc loader is among the unpacked libraries.
    pub glibc_loader_exists: bool,
    /// Whether the musl loader is among the unpacked libraries.
    pub musl_loader_exists: bool,
    /// The executable search path of this process, if it has one.
    pub search_path: Option<String>,
}

/// How the target is started.
#[derive(Debug)]
pub struct LaunchPlan {
    /// The program to spawn: the dynamic loader.
    pub loader: String,
    /// Its arguments.
    pub args: Vec<String>,
    /// The child's working directory.
    pub work_dir: String,
    /// The child's executable search path.
    pub search_path: String,
}

/// The executable search path handed to the child: the bundle's `bins`
/// directory, a colon, and the path of this process (empty if it has none).
pub open spec fn spec_child_search_path(bin_dir: Seq<char>, current: Option<String>) -> Seq<char> {
    bin_dir + ":"@ + match current {
        Some(p) => p@,
        None => Seq::<char>::empty(),
    }
}

/// The arguments handed to the loader: where the libraries are, the target,
/// and what this process was given after its own name.
pub open spec fn spec_loader_args(
    libs_dir: Seq<char>,
    target_path: Seq<char>,
    args: Seq<Seq<char>>,
) -> Seq<Seq<char>> {
    seq!["--library-path"@, libs_dir, target_path] + (if args.len() > 0 {
        args.subrange(1, args.len() as int)
    } else {
        Seq::<Seq<char>>::empty()
    })
}

/// Whether `plan` starts the bundle of `name` unpacked below `root` through
/// `loader`.
pub open spec fn launches(
    plan: LaunchPlan,
    loader: Seq<char>,
    root: Seq<char>,
    name: Seq<char>,
    current: Option<String>,
    args: Seq<Seq<char>>,
) -> bool {
    &&& plan.loader@ == loader
    &&& texts(plan.args@) == spec_loader_args(
        spec_libs_dir(root, name),
        spec_target_path(root, name),
        args,
    )
    &&& plan.work_dir@ == spec_bin_dir(root, name)
    &&& plan.search_path@ == spec_child_search_path(spec_bin_dir(root, name), current)
}

/// How a spawned child ended, or that it could not be spawned.
#[derive(Clone, Copy, Debug, PartialEq, Eq, Structural)]
pub enum ChildOutcome {
    /// The loader could not be spawned.
    NotSpawned,
    /// The child exited with this code.
    Exited(i32),
    /// The child was ended by a signal and left no code.
    Signaled,
}

/// What the bundle reports once the child is done: success for code 0, the
/// child's own code otherwise (1 where a signal ended it), an I/O failure
/// where it was never spawned.
pub open spec fn spec_verdict(outcome: ChildOutcome) -> Result<(), RexError> {
    match outcome {
        ChildOutcome::NotSpawned => Err(RexError::IoError),
        ChildOutcome::Exited(code) => if code == 0 {
            Ok(())
        } else {
            Err(RexError::ChildFailure(code))
        },
        ChildOutcome::Signaled => Err(RexError::ChildFailure(1)),
    }
}

/// The code with which the process ends on `result`: 0 on success, the
/// failure's own code otherwise.
pub open spec fn spec_exit_code(result: Result<(), RexError>) -> i32 {
    match result {
        Ok(_) => 0,
        Err(e) => e.spec_exit_code(),
    }
}

/// The code with which the process ends on `result`.
pub fn exit_code(result: &Result<(), RexError>) -> (code: i32)
    ensures
        code == spec_exit_code(*result),
{
    match result {
        Ok(_) => 0,
        Err(e) => e.exit_code(),
    }
}

/// The state of a started process: the payload found in its own image, if
/// any, and whether the start of the target was tried.
#[derive(Debug)]
pub struct Runtime {
    payload_info: Option<PayloadInfo>,
    executed: bool,
}

impl Runtime {
    /// The payload that this process still holds.
    pub closed spec fn payload(&self) -> Option<PayloadInfoView> {
        match self.payload_info {
            Some(info) => Some(info@),
            None => None,
        }
    }

    /// Whether the start of the target was tried.
    pub closed spec fn spec_has_run(&self) -> bool {
        self.executed
    }

    /// Whether this is the state of a process just started from an image at
    /// whose end `l` stands.
    pub open spec fn starts_from(&self, l: Located) -> bool {
        &&& !self.spec_has_run()
        &&& match l {
            Located::Absent => self.payload() is None,
            Located::Corrupt => false,
            Located::Found { metadata, payload_start, name } => self.payload() == Some(
                PayloadInfoView {
                    metadata,
                    payload_start_offset: payload_start,
                    target_binary_name: vstd::utf8::decode_utf8(name),
                },
            ),
        }
    }

    /// Probes the image of the running executable for a trailer. `tail` holds
    /// the end of the image, all of it or at least its last
    /// `TAIL_LEN` bytes, and `file_size` is the length of the image.
    pub fn new(tail: &[u8], file_size: u64) -> (r: Result<Runtime, RexError>)
        ensures
            located(tail@, file_size) is Corrupt <==> r is Err,
            r matches Err(e) ==> e == RexError::CorruptTrailer,
            r matches Ok(runtime) ==> runtime.starts_from(located(tail@, file_size)),
    {
        match find_payload_info(tail, file_size) {
            Ok(payload_info) => Ok(Runtime { payload_info, executed: false }),
            Err(e) => Err(e),
        }
    }

    /// Whether the image carries a payload that has not been handed out.
    pub fn is_bundled(&self) -> (b: bool)
        ensures
            b == self.payload() is Some,
    {
        self.payload_info.is_some()
    }

    /// Whether the start of the target was tried: false from the start, true
    /// once `finish` has recorded an attempt, and never false again.
    pub fn has_run(&self) -> (b: bool)
        ensures
            b == self.spec_has_run(),
    {
        self.executed
    }

    /// Decides what a started bundle does with its arguments: `--rex-help`
    /// and `--rex-extract` in first place are the runtime's own, anything
    /// else goes to the target. A launch hands the payload out, so that it
    /// is launched once.
    pub fn run(&mut self, args: &Vec<String>) -> (r: Result<RunStep, RexError>)
        ensures
            final(self).spec_has_run() == old(self).spec_has_run(),
            wants_help(args@) ==> (r matches Ok(RunStep::ShowHelp) && final(self).payload() == old(
                self,
            ).payload()),
            !wants_help(args@) && old(self).payload() is None ==> (r matches Err(
                RexError::NoPayload,
            ) && final(self).payload() is None),
            !wants_help(args@) && wants_extract(args@) && old(self).payload() is Some ==> (r matches Ok(
                RunStep::Extract(info),
            ) && Some(info@) == old(self).payload() && final(self).payload() == old(
                self,
            ).payload()),
            !wants_help(args@) && !wants_extract(args@) && old(self).payload() is Some ==> (r matches Ok(
                RunStep::Launch(info),
            ) && Some(info@) == old(self).payload() && final(self).payload() is None),
    {
        if args.len() > 1 {
            if same_text(args[1].as_str(), "--rex-help") {
                return Ok(RunStep::ShowHelp);
            }
            if same_text(args[1].as_str(), "--rex-extract") {
                return match &self.payload_info {
                    Some(info) => Ok(RunStep::Extract(info.clone())),
                    None => Err(RexError::NoPayload),
                };
            }
        }
        match self.payload_info.take() {
            Some(info) => Ok(RunStep::Launch(info)),
            None => Err(RexError::NoPayload),
        }
    }

    /// Plans the start of the target once the payload is unpacked below
    /// `root`. The target must be there, and one of the two loaders, the
    /// glibc one taken first.
    pub fn run_bundled_binary(
        info: &PayloadInfo,
        root: &str,
        probe: &LaunchProbe,
        args: &Vec<String>,
    ) -> (r: Result<LaunchPlan, RexError>)
        ensures
            !probe.target_exists ==> r matches Err(RexError::TargetMissing),
            probe.target_exists && !probe.glibc_loader_exists && !probe.musl_loader_exists
                ==> r matches Err(RexError::LoaderMissing),
            probe.target_exists && probe.glibc_loader_exists ==> (r matches Ok(plan) && launches(
                plan,
                spec_glibc_loader(root@, info.target_binary_name@),
                root@,
                info.target_binary_name@,
                probe.search_path,
                texts(args@),
            )),
            probe.target_exists && !probe.glibc_loader_exists && probe.musl_loader_exists ==> (r matches Ok(
                plan,
            ) && launches(
                plan,
                spec_musl_loader(root@, info.target_binary_name@),
                root@,
                info.target_binary_name@,
                probe.search_path,
                texts(args@),
            )),
    {
        let layout: BundleLayout = BundleLayout::new(root, info.target_binary_name.as_str());
        if !probe.target_exists {
            return Err(RexError::TargetMissing);
        }
        let BundleLayout { bundle_dir: _, bin_dir, libs_dir, target_path, glibc_loader, musl_loader } =
            layout;
        let loader: String = if probe.glibc_loader_exists {
            glibc_loader
        } else if probe.musl_loader_exists {
            musl_loader
        } else {
            return Err(RexError::LoaderMissing);
        };
        let mut search_path: String = with_suffix(bin_dir.as_str(), ":");
        match &probe.search_path {
            Some(current) => {
                search_path.append(current.as_str());
            },
            None => {
                assert(search_path@ + Seq::<char>::empty() =~= search_path@);
            },
        }
        let mut child_args: Vec<String> = Vec::new();
        child_args.push(String::from_str("--library-path"));
        child_args.push(libs_dir);
        child_args.push(target_path);
        let ghost head = texts(child_args@);
        assert(head =~= seq![
            "--library-path"@,
            spec_libs_dir(root@, info.target_binary_name@),
            spec_target_path(root@, info.target_binary_name@),
        ]);
        let mut i: usize = 1;
        if args.len() == 0 {
            assert(texts(child_args@) =~= head + Seq::<Seq<char>>::empty());
        } else {
            assert(texts(child_args@) =~= head + texts(args@).subrange(1, 1));
            while i < args.len()
                invariant
                    1 <= i <= args@.len(),
                    texts(child_args@) == head + texts(args@).subrange(1, i as int),
                decreases args@.len() - i,
            {
                proof {
                    texts_push(child_args@, args@[i as int]);
                }
                child_args.push(args[i].clone());
                i += 1;
                assert(texts(child_args@) =~= head + texts(args@).subrange(1, i as int));
            }
        }
        Ok(LaunchPlan { loader, args: child_args, work_dir: bin_dir, search_path })
    }

    /// Records how the attempt to start the target ended. The target counts
    /// as run once the spawn was tried, whatever came of it.
    pub fn finish(&mut self, outcome: ChildOutcome) -> (r: Result<(), RexError>)
        ensures
            r == spec_verdict(outcome),
            final(self).spec_has_run(),
            final(self).payload() == old(self).payload(),
    {
        self.executed = true;
        match outcome {
            ChildOutcome::NotSpawned => Err(RexError::IoError),
            ChildOutcome::Exited(code) => {
                if code == 0 {
                    Ok(())
                } else {
                    Err(RexError::ChildFailure(code))
                }
            },
            ChildOutcome::Signaled => Err(RexError::ChildFailure(1)),
        }
    }
}

} // verus!
