//! The generating side: what goes into a bundle and where.

use vstd::prelude::*;
use vstd::string::StringSliceAdditionalSpecFns;
use vstd::string::StringExecFns;
use vstd::utf8::{encode_utf8, encode_utf8_valid_utf8};
use crate::codec::{level_is_valid, spec_level_is_valid};
use crate::error::RexError;
use crate::format::{encoded_text_has_no_separator, valid_name, MAX_NAME_LEN};
use crate::paths::{
    file_name, file_name_is_one_component, is_loader_name, join, spec_file_name,
    spec_is_loader_name, spec_join, texts, texts_push, with_suffix,
};
use crate::runtime::{
    spec_bin_dir, spec_bundle_dir, spec_libs_dir, spec_target_path, BundleLayout,
};
use crate::staging::{
    append_texts, contains_text, copies_are_of_copied_sources, copies_into, copy_of, is_copied,
    opt_text, plan_copies, step_texts, CopyStep,
};

verus! {

/// What the generator is asked to bundle.
#[derive(Debug)]
pub struct BundleArgs {
    /// Path of the target program.
    pub target_binary: String,
    /// Compression level of the payload.
    pub compression_level: i32,
    /// Shared objects to put into `libs/` beside the target's own.
    pub extra_libs: Vec<String>,
    /// Files and directories to put at the root of the bundle.
    pub additional_files: Vec<String>,
    /// Executables, or directories of executables, to put into `bins/`.
    pub extra_bins: Vec<String>,
}

/// The mathematical content of a `BundleArgs`.
pub struct BundleArgsView {
    pub target_binary: Seq<char>,
    pub compression_level: i32,
    pub extra_libs: Seq<Seq<char>>,
    pub additional_files: Seq<Seq<char>>,
    pub extra_bins: Seq<Seq<char>>,
}

impl View for BundleArgs {
    type V = BundleArgsView;

    open spec fn view(&self) -> BundleArgsView {
        BundleArgsView {
            target_binary: self.target_binary@,
            compression_level: self.compression_level,
            extra_libs: texts(self.extra_libs@),
            additional_files: texts(self.additional_files@),
            extra_bins: texts(self.extra_bins@),
        }
    }
}


/// What the dependency collector found out about an executable.
#[derive(Debug)]
pub enum DepScan {
    /// There is no such file.
    Missing,
    /// The file is no ELF executable.
    Invalid,
    /// The executable is statically linked.
    Static,
    /// The executable is dynamically linked, and these are the shared
    /// objects that it needs and that the host has.
    Dynamic(Vec<String>),
}

/// An executable for `bins/`, with what the dependency collector found out
/// about it.
#[derive(Debug)]
pub struct BinFile {
    pub path: String,
    pub scan: DepScan,
}

/// What the generator has to know of the host before it plans a bundle.
#[derive(Debug)]
pub struct HostFacts {
    /// The directory below which the staging tree is built.
    pub temp_root: String,
    /// The working directory of the generator.
    pub work_dir: String,
    /// What the dependency collector found out about the target.
    pub target_scan: DepScan,
    /// For each of the usual loaders (`known_loaders`), in order, whether the
    /// host has it.
    pub known_loader_exists: Vec<bool>,
    /// For each extra library asked for, in order, whether the host has it.
    pub extra_lib_exists: Vec<bool>,
    /// For each extra executable asked for, in order, the regular files that
    /// it stands for: itself if it is one, the regular files directly in it if
    /// it is a directory, none otherwise.
    pub extra_bins: Vec<Vec<BinFile>>,
    /// For each additional file asked for, in order, whether the host has it.
    pub additional_exists: Vec<bool>,
}

/// The shared objects that a scan lists.
pub open spec fn scan_deps(scan: DepScan) -> Seq<Seq<char>> {
    match scan {
        DepScan::Dynamic(deps) => texts(deps@),
        _ => Seq::empty(),
    }
}

/// The paths of a list of executables.
pub open spec fn files_paths(files: Seq<BinFile>) -> Seq<Seq<char>> {
    Seq::new(files.len(), |i: int| files[i].path@)
}

/// The shared objects that the first `n` executables of a list need, in
/// their order.
pub open spec fn files_deps(files: Seq<BinFile>, n: int) -> Seq<Seq<char>>
    decreases n,
{
    if n <= 0 {
        Seq::empty()
    } else {
        files_deps(files, n - 1) + scan_deps(files[n - 1].scan)
    }
}

/// The paths of the executables that the first `n` entries stand for.
pub open spec fn bins_paths(entries: Seq<Vec<BinFile>>, n: int) -> Seq<Seq<char>>
    decreases n,
{
    if n <= 0 {
        Seq::empty()
    } else {
        bins_paths(entries, n - 1) + files_paths(entries[n - 1]@)
    }
}

/// The shared objects that the executables of the first `n` entries need.
pub open spec fn bins_deps(entries: Seq<Vec<BinFile>>, n: int) -> Seq<Seq<char>>
    decreases n,
{
    if n <= 0 {
        Seq::empty()
    } else {
        bins_deps(entries, n - 1) + files_deps(entries[n - 1]@, entries[n - 1]@.len() as int)
    }
}

/// Whether position `i` of a list of flags is there and set.
pub open spec fn flag_at(flags: Seq<bool>, i: int) -> bool {
    0 <= i < flags.len() && flags[i]
}

/// The dependencies of the target, then each of the first `n` extra
/// libraries that the host has and that is not yet in the list.
pub open spec fn merged_libs(
    deps: Seq<Seq<char>>,
    extras: Seq<Seq<char>>,
    exists: Seq<bool>,
    n: int,
) -> Seq<Seq<char>>
    decreases n,
{
    if n <= 0 {
        deps
    } else {
        let before = merged_libs(deps, extras, exists, n - 1);
        if flag_at(exists, n - 1) && !before.contains(extras[n - 1]) {
            before.push(extras[n - 1])
        } else {
            before
        }
    }
}

/// Those of the first `n` additional files that the host has, each as a path
/// from the working directory.
pub open spec fn existing_files(
    work_dir: Seq<char>,
    files: Seq<Seq<char>>,
    exists: Seq<bool>,
    n: int,
) -> Seq<Seq<char>>
    decreases n,
{
    if n <= 0 {
        Seq::empty()
    } else {
        let before = existing_files(work_dir, files, exists, n - 1);
        if flag_at(exists, n - 1) {
            before.push(spec_join(work_dir, files[n - 1]))
        } else {
            before
        }
    }
}

/// Merges the extra libraries into the dependencies of the target.
pub fn merge_libs(deps: &Vec<String>, extras: &Vec<String>, exists: &Vec<bool>) -> (libs: Vec<String>)
    ensures
        texts(libs@) == merged_libs(texts(deps@), texts(extras@), exists@, extras@.len() as int),
{
    let mut libs: Vec<String> = Vec::new();
    append_texts(&mut libs, deps);
    assert(texts(libs@) =~= texts(deps@));
    let mut i: usize = 0;
    while i < extras.len()
        invariant
            i <= extras@.len(),
            texts(libs@) == merged_libs(texts(deps@), texts(extras@), exists@, i as int),
        decreases extras@.len() - i,
    {
        let present: bool = i < exists.len() && exists[i];
        assert(texts(extras@)[i as int] == extras@[i as int]@);
        if present && !contains_text(&libs, &extras[i]) {
            let ghost before = libs@;
            libs.push(extras[i].clone());
            assert(texts(libs@) =~= texts(before).push(extras@[i as int]@));
        }
        i += 1;
    }
    libs
}

/// Lists the additional files that the host has.
pub fn list_existing(work_dir: &str, files: &Vec<String>, exists: &Vec<bool>) -> (list: Vec<String>)
    ensures
        texts(list@) == existing_files(work_dir@, texts(files@), exists@, files@.len() as int),
{
    let mut list: Vec<String> = Vec::new();
    assert(texts(list@) =~= Seq::<Seq<char>>::empty());
    let mut i: usize = 0;
    while i < files.len()
        invariant
            i <= files@.len(),
            texts(list@) == existing_files(work_dir@, texts(files@), exists@, i as int),
        decreases files@.len() - i,
    {
        assert(texts(files@)[i as int] == files@[i as int]@);
        if i < exists.len() && exists[i] {
            let ghost before = list@;
            let path: String = join(work_dir, files[i].as_str());
            list.push(path);
            assert(texts(list@) =~= texts(before).push(spec_join(work_dir@, files@[i as int]@)));
        }
        i += 1;
    }
    list
}

/// Whether a path names a dynamic loader.
pub open spec fn is_loader_path(path: Seq<char>) -> bool {
    spec_file_name(path) matches Some(name) && spec_is_loader_name(name)
}

/// The first of the paths from position `from` on that names a dynamic
/// loader.
pub open spec fn first_loader_from(deps: Seq<Seq<char>>, from: int) -> Option<Seq<char>>
    decreases deps.len() - from,
{
    if from < 0 || from >= deps.len() {
        None
    } else if is_loader_path(deps[from]) {
        Some(deps[from])
    } else {
        first_loader_from(deps, from + 1)
    }
}

/// The first of the paths from position `from` on that the host has.
pub open spec fn first_existing_from(known: Seq<Seq<char>>, exists: Seq<bool>, from: int) -> Option<
    Seq<char>,
>
    decreases known.len() - from,
{
    if from < 0 || from >= known.len() {
        None
    } else if flag_at(exists, from) {
        Some(known[from])
    } else {
        first_existing_from(known, exists, from + 1)
    }
}

/// The loader to ship: the first loader among the dependencies of the
/// target, or else the first of the usual loaders that the host has.
pub open spec fn spec_choose_loader(
    deps: Seq<Seq<char>>,
    known: Seq<Seq<char>>,
    known_exists: Seq<bool>,
) -> Option<Seq<char>> {
    match first_loader_from(deps, 0) {
        Some(loader) => Some(loader),
        None => first_existing_from(known, known_exists, 0),
    }
}

/// Where a host usually keeps its dynamic loader: the glibc one, then the
/// musl one.
pub open spec fn spec_known_loaders() -> Seq<Seq<char>> {
    seq!["/lib64/ld-linux-x86-64.so.2"@, "/lib/ld-musl-x86_64.so.1"@]
}

/// Where a host usually keeps its dynamic loader.
pub fn known_loaders() -> (known: Vec<String>)
    ensures
        texts(known@) == spec_known_loaders(),
{
    let mut known: Vec<String> = Vec::new();
    known.push(String::from_str("/lib64/ld-linux-x86-64.so.2"));
    known.push(String::from_str("/lib/ld-musl-x86_64.so.1"));
    assert(texts(known@) =~= spec_known_loaders());
    known
}

/// Chooses the loader to ship.
pub fn choose_loader(deps: &Vec<String>, known: &Vec<String>, known_exists: &Vec<bool>) -> (loader:
    Option<String>)
    ensures
        opt_text(loader) == spec_choose_loader(texts(deps@), texts(known@), known_exists@),
{
    let mut i: usize = 0;
    while i < deps.len()
        invariant
            i <= deps@.len(),
            first_loader_from(texts(deps@), i as int) == first_loader_from(texts(deps@), 0),
        decreases deps@.len() - i,
    {
        assert(texts(deps@)[i as int] == deps@[i as int]@);
        match file_name(deps[i].as_str()) {
            Some(name) => {
                if is_loader_name(name.as_str()) {
                    return Some(deps[i].clone());
                }
            },
            None => {},
        }
        i += 1;
    }
    let mut k: usize = 0;
    while k < known.len()
        invariant
            k <= known@.len(),
            first_loader_from(texts(deps@), 0) is None,
            first_existing_from(texts(known@), known_exists@, k as int) == first_existing_from(
                texts(known@),
                known_exists@,
                0,
            ),
        decreases known@.len() - k,
    {
        assert(texts(known@)[k as int] == known@[k as int]@);
        if k < known_exists.len() && known_exists[k] {
            return Some(known[k].clone());
        }
        k += 1;
    }
    None
}

/// Those of the first `n` items that the host lacks.
pub open spec fn lacking(items: Seq<Seq<char>>, exists: Seq<bool>, n: int) -> Seq<Seq<char>>
    decreases n,
{
    if n <= 0 {
        Seq::empty()
    } else {
        let before = lacking(items, exists, n - 1);
        if flag_at(exists, n - 1) {
            before
        } else {
            before.push(items[n - 1])
        }
    }
}

/// Those of the first `n` additional files for which no copy is planned:
/// the host lacks the file, or its path from the working directory has no
/// file name.
pub open spec fn skipped_files(
    work_dir: Seq<char>,
    files: Seq<Seq<char>>,
    exists: Seq<bool>,
    n: int,
) -> Seq<Seq<char>>
    decreases n,
{
    if n <= 0 {
        Seq::empty()
    } else {
        let before = skipped_files(work_dir, files, exists, n - 1);
        if flag_at(exists, n - 1) && spec_file_name(spec_join(work_dir, files[n - 1])) is Some {
            before
        } else {
            before.push(files[n - 1])
        }
    }
}

/// Lists the items that the host lacks.
pub fn list_lacking(items: &Vec<String>, exists: &Vec<bool>) -> (list: Vec<String>)
    ensures
        texts(list@) == lacking(texts(items@), exists@, items@.len() as int),
{
    let mut list: Vec<String> = Vec::new();
    assert(texts(list@) =~= Seq::<Seq<char>>::empty());
    let mut i: usize = 0;
    while i < items.len()
        invariant
            i <= items@.len(),
            texts(list@) == lacking(texts(items@), exists@, i as int),
        decreases items@.len() - i,
    {
        assert(texts(items@)[i as int] == items@[i as int]@);
        if !(i < exists.len() && exists[i]) {
            proof {
                texts_push(list@, items@[i as int]);
            }
            list.push(items[i].clone());
        }
        i += 1;
    }
    list
}

/// Lists the additional files for which no copy is planned.
pub fn list_skipped(work_dir: &str, files: &Vec<String>, exists: &Vec<bool>) -> (list: Vec<String>)
    ensures
        texts(list@) == skipped_files(work_dir@, texts(files@), exists@, files@.len() as int),
{
    let mut list: Vec<String> = Vec::new();
    assert(texts(list@) =~= Seq::<Seq<char>>::empty());
    let mut i: usize = 0;
    while i < files.len()
        invariant
            i <= files@.len(),
            texts(list@) == skipped_files(work_dir@, texts(files@), exists@, i as int),
        decreases files@.len() - i,
    {
        assert(texts(files@)[i as int] == files@[i as int]@);
        let present: bool = i < exists.len() && exists[i];
        let path: String = join(work_dir, files[i].as_str());
        let named: bool = file_name(path.as_str()).is_some();
        if !(present && named) {
            proof {
                texts_push(list@, files@[i as int]);
            }
            list.push(files[i].clone());
        }
        i += 1;
    }
    list
}

/// Enters one extra executable into the lists of what is to be copied: the
/// executable itself for `bins/`, the shared objects it needs for `libs/`.
pub fn copy_bin_and_deps(file: &BinFile, bins: &mut Vec<String>, libs: &mut Vec<String>)
    ensures
        texts(final(bins)@) == texts(old(bins)@).push(file.path@),
        texts(final(libs)@) == texts(old(libs)@) + scan_deps(file.scan),
{
    let ghost bins_before = bins@;
    bins.push(file.path.clone());
    assert(texts(bins@) =~= texts(bins_before).push(file.path@));
    match &file.scan {
        DepScan::Dynamic(deps) => {
            append_texts(libs, deps);
        },
        _ => {
            assert(texts(libs@) + Seq::<Seq<char>>::empty() =~= texts(libs@));
        },
    }
}

fn copy_entry(files: &Vec<BinFile>, bins: &mut Vec<String>, libs: &mut Vec<String>)
    ensures
        texts(final(bins)@) == texts(old(bins)@) + files_paths(files@),
        texts(final(libs)@) == texts(old(libs)@) + files_deps(files@, files@.len() as int),
{
    assert(texts(bins@) =~= texts(old(bins)@) + files_paths(files@).subrange(0, 0));
    assert(texts(libs@) =~= texts(old(libs)@) + files_deps(files@, 0));
    let mut i: usize = 0;
    while i < files.len()
        invariant
            i <= files@.len(),
            texts(bins@) == texts(old(bins)@) + files_paths(files@).subrange(0, i as int),
            texts(libs@) == texts(old(libs)@) + files_deps(files@, i as int),
        decreases files@.len() - i,
    {
        copy_bin_and_deps(&files[i], bins, libs);
        assert(texts(bins@) =~= texts(old(bins)@) + files_paths(files@).subrange(0, i + 1));
        assert(texts(libs@) =~= texts(old(libs)@) + files_deps(files@, i + 1));
        i += 1;
    }
    assert(files_paths(files@).subrange(0, files@.len() as int) =~= files_paths(files@));
}

/// Lists the extra executables that the entries stand for and the shared
/// objects that they need.
pub fn collect_bins(entries: &Vec<Vec<BinFile>>) -> (lists: (Vec<String>, Vec<String>))
    ensures
        texts(lists.0@) == bins_paths(entries@, entries@.len() as int),
        texts(lists.1@) == bins_deps(entries@, entries@.len() as int),
{
    let mut bins: Vec<String> = Vec::new();
    let mut libs: Vec<String> = Vec::new();
    assert(texts(bins@) =~= Seq::<Seq<char>>::empty());
    assert(texts(libs@) =~= Seq::<Seq<char>>::empty());
    let mut i: usize = 0;
    while i < entries.len()
        invariant
            i <= entries@.len(),
            texts(bins@) == bins_paths(entries@, i as int),
            texts(libs@) == bins_deps(entries@, i as int),
        decreases entries@.len() - i,
    {
        copy_entry(&entries[i], &mut bins, &mut libs);
        i += 1;
    }
    (bins, libs)
}

/// Everything that the generator does for one bundle, decided in advance.
#[derive(Debug)]
pub struct BundlePlan {
    /// File name of the target: the name of the bundle.
    pub target_name: String,
    /// Root of the staging tree.
    pub staging_dir: String,
    /// `bins/` in the staging tree.
    pub bin_dir: String,
    /// `libs/` in the staging tree.
    pub libs_dir: String,
    /// The copy of the target into the root of the staging tree.
    pub target_copy: CopyStep,
    /// The copies into `bins/`.
    pub bin_copies: Vec<CopyStep>,
    /// The copies into `libs/`, no two to the same place.
    pub lib_copies: Vec<CopyStep>,
    /// The copies of additional files into the root of the staging tree.
    pub file_copies: Vec<CopyStep>,
    /// The extra libraries asked for that the host lacks: they are left out.
    pub missing_libs: Vec<String>,
    /// The additional files asked for of which no copy is planned: the host
    /// lacks them, or their path names no file.
    pub skipped_files: Vec<String>,
    /// The single top-level directory of the archive.
    pub archive_root: String,
    /// The bundle to write.
    pub output: String,
    /// Compression level of the payload.
    pub compression_level: i32,
}

/// What the generator does with a request.
#[derive(Debug)]
pub enum Generation {
    /// The target is statically linked and needs no bundle: none is made.
    SkipStatic,
    /// The bundle is made as planned.
    Proceed(BundlePlan),
}

/// Why a request is refused, if it is: the target is missing or no ELF
/// executable; or it is dynamically linked and its path names no file, or a
/// file whose name is longer than a bundle can carry, or the level is outside
/// 1 to 22. A statically linked target is never refused, and whether extra
/// libraries and additional files are there plays no part.
pub open spec fn spec_refusal(target: Seq<char>, level: i32, scan: DepScan) -> Option<RexError> {
    match scan {
        DepScan::Missing => Some(RexError::InputNotFound),
        DepScan::Invalid => Some(RexError::InvalidElf),
        DepScan::Static => None,
        DepScan::Dynamic(_) => match spec_file_name(target) {
            None => Some(RexError::InvalidName),
            Some(name) => if encode_utf8(name).len() > MAX_NAME_LEN {
                Some(RexError::InvalidName)
            } else if !spec_level_is_valid(level) {
                Some(RexError::InvalidLevel)
            } else {
                None
            },
        },
    }
}

/// The files that compete for a place in `libs/`, in the order in which they
/// are copied: the loader, what the extra executables need, then what the
/// target needs with the extra libraries merged in.
pub open spec fn lib_sources(args: BundleArgs, facts: HostFacts) -> Seq<Seq<char>> {
    (match spec_choose_loader(
        scan_deps(facts.target_scan),
        spec_known_loaders(),
        facts.known_loader_exists@,
    ) {
        Some(loader) => seq![loader],
        None => Seq::empty(),
    }) + bins_deps(facts.extra_bins@, facts.extra_bins@.len() as int) + merged_libs(
        scan_deps(facts.target_scan),
        texts(args.extra_libs@),
        facts.extra_lib_exists@,
        args.extra_libs@.len() as int,
    )
}

impl BundlePlan {
    /// Whether this is the plan that the request and the host call for.
    pub open spec fn is_plan_for(self, args: BundleArgs, facts: HostFacts) -> bool {
        let name = spec_file_name(args.target_binary@)->Some_0;
        let files = existing_files(
            facts.work_dir@,
            texts(args.additional_files@),
            facts.additional_exists@,
            args.additional_files@.len() as int,
        );
        let bins = bins_paths(facts.extra_bins@, facts.extra_bins@.len() as int);
        let libs = lib_sources(args, facts);
        &&& self.target_name@ == name
        &&& self.staging_dir@ == spec_bundle_dir(facts.temp_root@, name)
        &&& self.bin_dir@ == spec_bin_dir(facts.temp_root@, name)
        &&& self.libs_dir@ == spec_libs_dir(facts.temp_root@, name)
        &&& self.target_copy.from@ == args.target_binary@
        &&& self.target_copy.to@ == spec_target_path(facts.temp_root@, name)
        &&& step_texts(self.bin_copies@) == copies_into(
            self.bin_dir@,
            bins,
            bins.len() as int,
            false,
        )
        &&& step_texts(self.lib_copies@) == copies_into(
            self.libs_dir@,
            libs,
            libs.len() as int,
            true,
        )
        &&& step_texts(self.file_copies@) == copies_into(
            self.staging_dir@,
            files,
            files.len() as int,
            false,
        )
        &&& texts(self.missing_libs@) == lacking(
            texts(args.extra_libs@),
            facts.extra_lib_exists@,
            args.extra_libs@.len() as int,
        )
        &&& texts(self.skipped_files@) == skipped_files(
            facts.work_dir@,
            texts(args.additional_files@),
            facts.additional_exists@,
            args.additional_files@.len() as int,
        )
        &&& self.archive_root@ == name + "_bundle"@
        &&& self.output@ == spec_join(facts.work_dir@, name + ".Rex"@)
        &&& self.compression_level == args.compression_level
    }
}

/// Plans the bundle of a target: which files go where in the staging tree,
/// what the archive's top-level directory is called, and where the bundle is
/// written. A statically linked target gets no bundle, whatever else is
/// asked for; extra libraries and additional files that the host lacks are
/// left out and named in the plan. The name of a planned bundle is one that
/// the trailer can carry.
pub fn generate_bundle(args: &BundleArgs, facts: &HostFacts) -> (r: Result<Generation, RexError>)
    ensures
        r matches Err(e) ==> spec_refusal(
            args.target_binary@,
            args.compression_level,
            facts.target_scan,
        ) == Some(e),
        r is Ok ==> spec_refusal(args.target_binary@, args.compression_level, facts.target_scan)
            is None,
        facts.target_scan is Static <==> r matches Ok(Generation::SkipStatic),
        r matches Ok(Generation::Proceed(plan)) ==> facts.target_scan is Dynamic && plan.is_plan_for(
            *args,
            *facts,
        ) && valid_name(encode_utf8(plan.target_name@)),
{
    let deps: &Vec<String> = match &facts.target_scan {
        DepScan::Missing => {
            return Err(RexError::InputNotFound);
        },
        DepScan::Invalid => {
            return Err(RexError::InvalidElf);
        },
        DepScan::Static => {
            return Ok(Generation::SkipStatic);
        },
        DepScan::Dynamic(deps) => deps,
    };
    let name: String = match file_name(args.target_binary.as_str()) {
        Some(name) => name,
        None => {
            return Err(RexError::InvalidName);
        },
    };
    if name.as_str().as_bytes().len() > MAX_NAME_LEN {
        return Err(RexError::InvalidName);
    }
    if !level_is_valid(args.compression_level) {
        return Err(RexError::InvalidLevel);
    }
    proof {
        file_name_is_one_component(args.target_binary@);
        encoded_text_has_no_separator(name@);
        encode_utf8_valid_utf8(name@);
    }
    let layout: BundleLayout = BundleLayout::new(facts.temp_root.as_str(), name.as_str());
    let BundleLayout {
        bundle_dir: staging_dir,
        bin_dir,
        libs_dir,
        target_path,
        glibc_loader: _,
        musl_loader: _,
    } = layout;
    let (bins, bins_libs) = collect_bins(&facts.extra_bins);
    let merged: Vec<String> = merge_libs(deps, &args.extra_libs, &facts.extra_lib_exists);
    let mut libs: Vec<String> = Vec::new();
    let known: Vec<String> = known_loaders();
    match choose_loader(deps, &known, &facts.known_loader_exists) {
        Some(loader) => {
            let ghost text = loader@;
            libs.push(loader);
            assert(texts(libs@) =~= seq![text]);
        },
        None => {
            assert(texts(libs@) =~= Seq::<Seq<char>>::empty());
        },
    }
    append_texts(&mut libs, &bins_libs);
    append_texts(&mut libs, &merged);
    assert(texts(libs@) == lib_sources(*args, *facts));
    let files: Vec<String> = list_existing(
        facts.work_dir.as_str(),
        &args.additional_files,
        &facts.additional_exists,
    );
    let missing_libs: Vec<String> = list_lacking(&args.extra_libs, &facts.extra_lib_exists);
    let skipped_files: Vec<String> = list_skipped(
        facts.work_dir.as_str(),
        &args.additional_files,
        &facts.additional_exists,
    );
    let bin_copies: Vec<CopyStep> = plan_copies(bin_dir.as_str(), &bins, false);
    let lib_copies: Vec<CopyStep> = plan_copies(libs_dir.as_str(), &libs, true);
    let file_copies: Vec<CopyStep> = plan_copies(staging_dir.as_str(), &files, false);
    let archive_root: String = with_suffix(name.as_str(), "_bundle");
    let output_name: String = with_suffix(name.as_str(), ".Rex");
    let output: String = join(facts.work_dir.as_str(), output_name.as_str());
    let target_copy = CopyStep { from: args.target_binary.clone(), to: target_path };
    Ok(
        Generation::Proceed(
            BundlePlan {
                target_name: name,
                staging_dir,
                bin_dir,
                libs_dir,
                target_copy,
                bin_copies,
                lib_copies,
                file_copies,
                missing_libs,
                skipped_files,
                archive_root,
                output,
                compression_level: args.compression_level,
            },
        ),
    )
}

/// What the merged list holds: every dependency of the target, every extra
/// library that the host has, and nothing else. An extra library that the
/// host lacks is left out unless the target needs it anyway.
pub proof fn merged_libs_members(
    deps: Seq<Seq<char>>,
    extras: Seq<Seq<char>>,
    exists: Seq<bool>,
    n: int,
    lib: Seq<char>,
)
    requires
        0 <= n <= extras.len(),
    ensures
        merged_libs(deps, extras, exists, n).contains(lib) <==> deps.contains(lib) || (exists|i: int|
            0 <= i < n && #[trigger] flag_at(exists, i) && extras[i] == lib),
    decreases n,
{
    if n > 0 {
        merged_libs_members(deps, extras, exists, n - 1, lib);
        let before = merged_libs(deps, extras, exists, n - 1);
        let now = merged_libs(deps, extras, exists, n);
        if flag_at(exists, n - 1) && !before.contains(extras[n - 1]) {
            assert(now == before.push(extras[n - 1]));
            if before.contains(lib) {
                let k = choose|k: int| 0 <= k < before.len() && before[k] == lib;
                assert(now[k] == lib);
            }
            if extras[n - 1] == lib {
                assert(now[now.len() - 1] == lib);
            }
            if now.contains(lib) {
                let k = choose|k: int| 0 <= k < now.len() && now[k] == lib;
                if k < before.len() {
                    assert(before[k] == lib);
                }
            }
        }
    }
}

/// The extra libraries add nothing twice: where the dependencies of the
/// target are all different, so are the entries of the merged list.
pub proof fn merged_libs_are_distinct(
    deps: Seq<Seq<char>>,
    extras: Seq<Seq<char>>,
    exists: Seq<bool>,
    n: int,
)
    requires
        0 <= n <= extras.len(),
        deps.no_duplicates(),
    ensures
        merged_libs(deps, extras, exists, n).no_duplicates(),
    decreases n,
{
    if n > 0 {
        merged_libs_are_distinct(deps, extras, exists, n - 1);
    }
}

/// What the list of additional files holds: the path of every file asked for
/// that the host has, and nothing else. A file that the host lacks is left
/// out.
pub proof fn existing_files_members(
    work_dir: Seq<char>,
    files: Seq<Seq<char>>,
    exists: Seq<bool>,
    n: int,
    path: Seq<char>,
)
    requires
        0 <= n <= files.len(),
    ensures
        existing_files(work_dir, files, exists, n).contains(path) <==> (exists|i: int|
            0 <= i < n && #[trigger] flag_at(exists, i) && spec_join(work_dir, files[i]) == path),
    decreases n,
{
    if n > 0 {
        existing_files_members(work_dir, files, exists, n - 1, path);
        let before = existing_files(work_dir, files, exists, n - 1);
        let now = existing_files(work_dir, files, exists, n);
        if flag_at(exists, n - 1) {
            assert(now == before.push(spec_join(work_dir, files[n - 1])));
            if before.contains(path) {
                let k = choose|k: int| 0 <= k < before.len() && before[k] == path;
                assert(now[k] == path);
            }
            if spec_join(work_dir, files[n - 1]) == path {
                assert(now[now.len() - 1] == path);
            }
            if now.contains(path) {
                let k = choose|k: int| 0 <= k < now.len() && now[k] == path;
                if k < before.len() {
                    assert(before[k] == path);
                }
            }
        }
    }
}

proof fn skipped_file_is_named(
    work_dir: Seq<char>,
    files: Seq<Seq<char>>,
    exists: Seq<bool>,
    n: int,
    i: int,
)
    requires
        0 <= i < n <= files.len(),
        !(flag_at(exists, i) && spec_file_name(spec_join(work_dir, files[i])) is Some),
    ensures
        skipped_files(work_dir, files, exists, n).contains(files[i]),
    decreases n,
{
    let before = skipped_files(work_dir, files, exists, n - 1);
    let now = skipped_files(work_dir, files, exists, n);
    if i < n - 1 {
        skipped_file_is_named(work_dir, files, exists, n - 1, i);
        let k = choose|k: int| 0 <= k < before.len() && before[k] == files[i];
        assert(now[k] == files[i]);
    } else {
        assert(now[now.len() - 1] == files[i]);
    }
}

/// No additional file is dropped in silence: each one asked for is either
/// copied into the root of the staging tree under its file name (the host has
/// it, and its path names a file or a directory) or named among the skipped.
pub proof fn additional_file_is_staged_or_skipped(
    staging_dir: Seq<char>,
    work_dir: Seq<char>,
    files: Seq<Seq<char>>,
    exists: Seq<bool>,
    i: int,
)
    requires
        0 <= i < files.len(),
    ensures
        ({
            let path = spec_join(work_dir, files[i]);
            let sources = existing_files(work_dir, files, exists, files.len() as int);
            if flag_at(exists, i) && spec_file_name(path) is Some {
                copies_into(staging_dir, sources, sources.len() as int, false).contains(
                    copy_of(staging_dir, path),
                )
            } else {
                skipped_files(work_dir, files, exists, files.len() as int).contains(files[i])
            }
        }),
{
    let path = spec_join(work_dir, files[i]);
    let sources = existing_files(work_dir, files, exists, files.len() as int);
    if flag_at(exists, i) && spec_file_name(path) is Some {
        existing_files_members(work_dir, files, exists, files.len() as int, path);
        let k = choose|k: int| 0 <= k < sources.len() && sources[k] == path;
        assert(is_copied(sources, k, false));
        copies_are_of_copied_sources(staging_dir, sources, sources.len() as int, false);
    } else {
        skipped_file_is_named(work_dir, files, exists, files.len() as int, i);
    }
}

} // verus!
