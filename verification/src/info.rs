//! What a build of the program is: the names of the settings that hold for it.
use vstd::prelude::*;
use vstd::string::*;

use crate::text;

verus! {

/// The names, among the first `n`, of the settings that hold.
pub open spec fn chosen(settings: Seq<(Seq<char>, bool)>, n: int) -> Seq<Seq<char>>
    decreases n,
{
    if n <= 0 {
        Seq::empty()
    } else if settings[n - 1].1 {
        chosen(settings, n - 1).push(settings[n - 1].0)
    } else {
        chosen(settings, n - 1)
    }
}

/// The names of the settings that hold, with commas between them.
pub open spec fn listed(settings: Seq<(Seq<char>, bool)>) -> Seq<char> {
    text::joined(chosen(settings, settings.len() as int), ", "@)
}

/// A name is chosen if and only if its setting holds.
pub proof fn chosen_names_hold(settings: Seq<(Seq<char>, bool)>, n: int, name: Seq<char>)
    requires
        0 <= n <= settings.len(),
    ensures
        chosen(settings, n).contains(name) <==> exists|i: int|
            0 <= i < n && #[trigger] settings[i] == (name, true),
    decreases n,
{
    if n > 0 {
        chosen_names_hold(settings, n - 1, name);
        let before = chosen(settings, n - 1);
        let now = chosen(settings, n);
        if before.contains(name) {
            let k = before.index_of(name);
            assert(now[k] == name);
        }
        if settings[n - 1] == (name, true) {
            assert(now[now.len() - 1] == name);
        }
        if now.contains(name) {
            let k = now.index_of(name);
            if k < before.len() {
                assert(before[k] == name);
            } else {
                assert(settings[n - 1] == (name, true));
            }
        }
    }
}

/// Adds a name to a list, where its setting holds.
fn offer(names: &mut Vec<String>, name: &str, holds: bool)
    ensures
        text::views(final(names)@) == if holds {
            text::views(old(names)@).push(name@)
        } else {
            text::views(old(names)@)
        },
{
    if holds {
        names.push(name.to_string());
        assert(text::views(names@) =~= text::views(old(names)@).push(name@));
    }
}

/// The architectures that a build can be for.
#[derive(Debug, Clone, Copy)]
pub struct TargetArch {
    pub x86: bool,
    pub x86_64: bool,
    pub mips: bool,
    pub powerpc: bool,
    pub powerpc64: bool,
    pub arm: bool,
    pub aarch64: bool,
}

impl TargetArch {
    /// The settings, by name.
    pub open spec fn settings(&self) -> Seq<(Seq<char>, bool)> {
        seq![
            ("x86"@, self.x86),
            ("x86_64"@, self.x86_64),
            ("mips"@, self.mips),
            ("powerpc"@, self.powerpc),
            ("powerpc64"@, self.powerpc64),
            ("arm"@, self.arm),
            ("aarch64"@, self.aarch64),
        ]
    }

    /// The names of the settings that hold.
    pub fn names(&self) -> (list: String)
        ensures
            list@ == listed(self.settings()),
    {
        let mut names: Vec<String> = Vec::new();
        assert(text::views(names@) =~= chosen(self.settings(), 0));
        offer(&mut names, "x86", self.x86);
        assert(text::views(names@) == chosen(self.settings(), 1));
        offer(&mut names, "x86_64", self.x86_64);
        assert(text::views(names@) == chosen(self.settings(), 2));
        offer(&mut names, "mips", self.mips);
        assert(text::views(names@) == chosen(self.settings(), 3));
        offer(&mut names, "powerpc", self.powerpc);
        assert(text::views(names@) == chosen(self.settings(), 4));
        offer(&mut names, "powerpc64", self.powerpc64);
        assert(text::views(names@) == chosen(self.settings(), 5));
        offer(&mut names, "arm", self.arm);
        assert(text::views(names@) == chosen(self.settings(), 6));
        offer(&mut names, "aarch64", self.aarch64);
        assert(text::views(names@) == chosen(self.settings(), 7));
        text::join(names.as_slice(), ", ")
    }
}

/// The features that a build can use.
#[derive(Debug, Clone, Copy)]
pub struct TargetFeature {
    pub avx: bool,
    pub avx2: bool,
    pub crt_static: bool,
    pub rdrand: bool,
    pub sse: bool,
    pub sse2: bool,
    pub sse4_1: bool,
}

impl TargetFeature {
    /// The settings, by name.
    pub open spec fn settings(&self) -> Seq<(Seq<char>, bool)> {
        seq![
            ("avx"@, self.avx),
            ("avx2"@, self.avx2),
            ("crt-static"@, self.crt_static),
            ("rdrand"@, self.rdrand),
            ("sse"@, self.sse),
            ("sse2"@, self.sse2),
            ("sse4.1"@, self.sse4_1),
        ]
    }

    /// The names of the settings that hold.
    pub fn names(&self) -> (list: String)
        ensures
            list@ == listed(self.settings()),
    {
        let mut names: Vec<String> = Vec::new();
        assert(text::views(names@) =~= chosen(self.settings(), 0));
        offer(&mut names, "avx", self.avx);
        assert(text::views(names@) == chosen(self.settings(), 1));
        offer(&mut names, "avx2", self.avx2);
        assert(text::views(names@) == chosen(self.settings(), 2));
        offer(&mut names, "crt-static", self.crt_static);
        assert(text::views(names@) == chosen(self.settings(), 3));
        offer(&mut names, "rdrand", self.rdrand);
        assert(text::views(names@) == chosen(self.settings(), 4));
        offer(&mut names, "sse", self.sse);
        assert(text::views(names@) == chosen(self.settings(), 5));
        offer(&mut names, "sse2", self.sse2);
        assert(text::views(names@) == chosen(self.settings(), 6));
        offer(&mut names, "sse4.1", self.sse4_1);
        assert(text::views(names@) == chosen(self.settings(), 7));
        text::join(names.as_slice(), ", ")
    }
}

/// The systems that a build can be for.
#[derive(Debug, Clone, Copy)]
pub struct TargetOs {
    pub linux: bool,
    pub windows: bool,
    pub macos: bool,
    pub android: bool,
    pub ios: bool,
    pub freebsd: bool,
    pub dragonfly: bool,
    pub openbsd: bool,
    pub none: bool,
}

impl TargetOs {
    /// The settings, by name.
    pub open spec fn settings(&self) -> Seq<(Seq<char>, bool)> {
        seq![
            ("linux"@, self.linux),
            ("windows"@, self.windows),
            ("macos"@, self.macos),
            ("android"@, self.android),
            ("ios"@, self.ios),
            ("freebsd"@, self.freebsd),
            ("dragonfly"@, self.dragonfly),
            ("openbsd"@, self.openbsd),
            ("none"@, self.none),
        ]
    }

    /// The names of the settings that hold.
    pub fn names(&self) -> (list: String)
        ensures
            list@ == listed(self.settings()),
    {
        let mut names: Vec<String> = Vec::new();
        assert(text::views(names@) =~= chosen(self.settings(), 0));
        offer(&mut names, "linux", self.linux);
        assert(text::views(names@) == chosen(self.settings(), 1));
        offer(&mut names, "windows", self.windows);
        assert(text::views(names@) == chosen(self.settings(), 2));
        offer(&mut names, "macos", self.macos);
        assert(text::views(names@) == chosen(self.settings(), 3));
        offer(&mut names, "android", self.android);
        assert(text::views(names@) == chosen(self.settings(), 4));
        offer(&mut names, "ios", self.ios);
        assert(text::views(names@) == chosen(self.settings(), 5));
        offer(&mut names, "freebsd", self.freebsd);
        assert(text::views(names@) == chosen(self.settings(), 6));
        offer(&mut names, "dragonfly", self.dragonfly);
        assert(text::views(names@) == chosen(self.settings(), 7));
        offer(&mut names, "openbsd", self.openbsd);
        assert(text::views(names@) == chosen(self.settings(), 8));
        offer(&mut names, "none", self.none);
        assert(text::views(names@) == chosen(self.settings(), 9));
        text::join(names.as_slice(), ", ")
    }
}

/// The families of systems that a build can be for.
#[derive(Debug, Clone, Copy)]
pub struct TargetFamily {
    pub unix: bool,
    pub windows: bool,
    pub wasm: bool,
}

impl TargetFamily {
    /// The settings, by name.
    pub open spec fn settings(&self) -> Seq<(Seq<char>, bool)> {
        seq![
            ("unix"@, self.unix),
            ("windows"@, self.windows),
            ("wasm"@, self.wasm),
        ]
    }

    /// The names of the settings that hold.
    pub fn names(&self) -> (list: String)
        ensures
            list@ == listed(self.settings()),
    {
        let mut names: Vec<String> = Vec::new();
        assert(text::views(names@) =~= chosen(self.settings(), 0));
        offer(&mut names, "unix", self.unix);
        assert(text::views(names@) == chosen(self.settings(), 1));
        offer(&mut names, "windows", self.windows);
        assert(text::views(names@) == chosen(self.settings(), 2));
        offer(&mut names, "wasm", self.wasm);
        assert(text::views(names@) == chosen(self.settings(), 3));
        text::join(names.as_slice(), ", ")
    }
}

/// The environments that a build can be for.
#[derive(Debug, Clone, Copy)]
pub struct TargetEnv {
    pub gnu: bool,
    pub musl: bool,
    pub sgx: bool,
    pub msvc: bool,
}

impl TargetEnv {
    /// The settings, by name.
    pub open spec fn settings(&self) -> Seq<(Seq<char>, bool)> {
        seq![
            ("gnu"@, self.gnu),
            ("musl"@, self.musl),
            ("sgx"@, self.sgx),
            ("msvc"@, self.msvc),
        ]
    }

    /// The names of the settings that hold.
    pub fn names(&self) -> (list: String)
        ensures
            list@ == listed(self.settings()),
    {
        let mut names: Vec<String> = Vec::new();
        assert(text::views(names@) =~= chosen(self.settings(), 0));
        offer(&mut names, "gnu", self.gnu);
        assert(text::views(names@) == chosen(self.settings(), 1));
        offer(&mut names, "musl", self.musl);
        assert(text::views(names@) == chosen(self.settings(), 2));
        offer(&mut names, "sgx", self.sgx);
        assert(text::views(names@) == chosen(self.settings(), 3));
        offer(&mut names, "msvc", self.msvc);
        assert(text::views(names@) == chosen(self.settings(), 4));
        text::join(names.as_slice(), ", ")
    }
}

/// The orders that bytes can have.
#[derive(Debug, Clone, Copy)]
pub struct TargetEndian {
    pub little: bool,
    pub big: bool,
}

impl TargetEndian {
    /// The settings, by name.
    pub open spec fn settings(&self) -> Seq<(Seq<char>, bool)> {
        seq![
            ("little"@, self.little),
            ("big"@, self.big),
        ]
    }

    /// The names of the settings that hold.
    pub fn names(&self) -> (list: String)
        ensures
            list@ == listed(self.settings()),
    {
        let mut names: Vec<String> = Vec::new();
        assert(text::views(names@) =~= chosen(self.settings(), 0));
        offer(&mut names, "little", self.little);
        assert(text::views(names@) == chosen(self.settings(), 1));
        offer(&mut names, "big", self.big);
        assert(text::views(names@) == chosen(self.settings(), 2));
        text::join(names.as_slice(), ", ")
    }
}

/// The widths, in bits, that pointers can have.
#[derive(Debug, Clone, Copy)]
pub struct TargetPointerWidth {
    pub bits_64: bool,
    pub bits_32: bool,
    pub bits_16: bool,
}

impl TargetPointerWidth {
    /// The settings, by name.
    pub open spec fn settings(&self) -> Seq<(Seq<char>, bool)> {
        seq![
            ("64"@, self.bits_64),
            ("32"@, self.bits_32),
            ("16"@, self.bits_16),
        ]
    }

    /// The names of the settings that hold.
    pub fn names(&self) -> (list: String)
        ensures
            list@ == listed(self.settings()),
    {
        let mut names: Vec<String> = Vec::new();
        assert(text::views(names@) =~= chosen(self.settings(), 0));
        offer(&mut names, "64", self.bits_64);
        assert(text::views(names@) == chosen(self.settings(), 1));
        offer(&mut names, "32", self.bits_32);
        assert(text::views(names@) == chosen(self.settings(), 2));
        offer(&mut names, "16", self.bits_16);
        assert(text::views(names@) == chosen(self.settings(), 3));
        text::join(names.as_slice(), ", ")
    }
}

/// The vendors that a build can be for.
#[derive(Debug, Clone, Copy)]
pub struct TargetVendor {
    pub pc: bool,
    pub apple: bool,
    pub fortanix: bool,
    pub unknown: bool,
}

impl TargetVendor {
    /// The settings, by name.
    pub open spec fn settings(&self) -> Seq<(Seq<char>, bool)> {
        seq![
            ("pc"@, self.pc),
            ("apple"@, self.apple),
            ("fortanix"@, self.fortanix),
            ("unknown"@, self.unknown),
        ]
    }

    /// The names of the settings that hold.
    pub fn names(&self) -> (list: String)
        ensures
            list@ == listed(self.settings()),
    {
        let mut names: Vec<String> = Vec::new();
        assert(text::views(names@) =~= chosen(self.settings(), 0));
        offer(&mut names, "pc", self.pc);
        assert(text::views(names@) == chosen(self.settings(), 1));
        offer(&mut names, "apple", self.apple);
        assert(text::views(names@) == chosen(self.settings(), 2));
        offer(&mut names, "fortanix", self.fortanix);
        assert(text::views(names@) == chosen(self.settings(), 3));
        offer(&mut names, "unknown", self.unknown);
        assert(text::views(names@) == chosen(self.settings(), 4));
        text::join(names.as_slice(), ", ")
    }
}

/// The widths, in bits or that of a pointer, that atomic operations can have.
#[derive(Debug, Clone, Copy)]
pub struct TargetHasAtomic {
    pub bits_8: bool,
    pub bits_16: bool,
    pub bits_32: bool,
    pub bits_64: bool,
    pub bits_128: bool,
    pub ptr: bool,
}

impl TargetHasAtomic {
    /// The settings, by name.
    pub open spec fn settings(&self) -> Seq<(Seq<char>, bool)> {
        seq![
            ("8"@, self.bits_8),
            ("16"@, self.bits_16),
            ("32"@, self.bits_32),
            ("64"@, self.bits_64),
            ("128"@, self.bits_128),
            ("ptr"@, self.ptr),
        ]
    }

    /// The names of the settings that hold.
    pub fn names(&self) -> (list: String)
        ensures
            list@ == listed(self.settings()),
    {
        let mut names: Vec<String> = Vec::new();
        assert(text::views(names@) =~= chosen(self.settings(), 0));
        offer(&mut names, "8", self.bits_8);
        assert(text::views(names@) == chosen(self.settings(), 1));
        offer(&mut names, "16", self.bits_16);
        assert(text::views(names@) == chosen(self.settings(), 2));
        offer(&mut names, "32", self.bits_32);
        assert(text::views(names@) == chosen(self.settings(), 3));
        offer(&mut names, "64", self.bits_64);
        assert(text::views(names@) == chosen(self.settings(), 4));
        offer(&mut names, "128", self.bits_128);
        assert(text::views(names@) == chosen(self.settings(), 5));
        offer(&mut names, "ptr", self.ptr);
        assert(text::views(names@) == chosen(self.settings(), 6));
        text::join(names.as_slice(), ", ")
    }
}

/// What a build can do on a panic.
#[derive(Debug, Clone, Copy)]
pub struct Panic {
    pub unwind: bool,
    pub abort: bool,
}

impl Panic {
    /// The settings, by name.
    pub open spec fn settings(&self) -> Seq<(Seq<char>, bool)> {
        seq![
            ("unwind"@, self.unwind),
            ("abort"@, self.abort),
        ]
    }

    /// The names of the settings that hold.
    pub fn names(&self) -> (list: String)
        ensures
            list@ == listed(self.settings()),
    {
        let mut names: Vec<String> = Vec::new();
        assert(text::views(names@) =~= chosen(self.settings(), 0));
        offer(&mut names, "unwind", self.unwind);
        assert(text::views(names@) == chosen(self.settings(), 1));
        offer(&mut names, "abort", self.abort);
        assert(text::views(names@) == chosen(self.settings(), 2));
        text::join(names.as_slice(), ", ")
    }
}

/// All settings of a build.
#[derive(Debug, Clone, Copy)]
pub struct CfgFlags {
    pub target_arch: TargetArch,
    pub target_feature: TargetFeature,
    pub target_os: TargetOs,
    pub target_family: TargetFamily,
    pub target_env: TargetEnv,
    pub target_endian: TargetEndian,
    pub target_pointer_width: TargetPointerWidth,
    pub target_vendor: TargetVendor,
    pub target_has_atomic: TargetHasAtomic,
    pub panic: Panic,
    pub test: bool,
    pub debug_assertions: bool,
    pub proc_macro: bool,
}

/// What is told of a build.
#[derive(Debug, PartialEq)]
pub struct CfgInfo {
    pub target_arch: String,
    pub target_feature: String,
    pub target_os: String,
    pub target_family: String,
    pub target_env: String,
    pub target_endian: String,
    pub target_pointer_width: String,
    pub target_vendor: String,
    pub target_has_atomic: String,
    pub panic: String,
    pub test: bool,
    pub debug_assertions: bool,
    pub proc_macro: bool,
}

/// What is told of a build with the given settings.
pub fn cfg_info(flags: &CfgFlags) -> (info: CfgInfo)
    ensures
        info.target_arch@ == listed(flags.target_arch.settings()),
        info.target_feature@ == listed(flags.target_feature.settings()),
        info.target_os@ == listed(flags.target_os.settings()),
        info.target_family@ == listed(flags.target_family.settings()),
        info.target_env@ == listed(flags.target_env.settings()),
        info.target_endian@ == listed(flags.target_endian.settings()),
        info.target_pointer_width@ == listed(flags.target_pointer_width.settings()),
        info.target_vendor@ == listed(flags.target_vendor.settings()),
        info.target_has_atomic@ == listed(flags.target_has_atomic.settings()),
        info.panic@ == listed(flags.panic.settings()),
        info.test == flags.test,
        info.debug_assertions == flags.debug_assertions,
        info.proc_macro == flags.proc_macro,
{
    CfgInfo {
        target_arch: flags.target_arch.names(),
        target_feature: flags.target_feature.names(),
        target_os: flags.target_os.names(),
        target_family: flags.target_family.names(),
        target_env: flags.target_env.names(),
        target_endian: flags.target_endian.names(),
        target_pointer_width: flags.target_pointer_width.names(),
        target_vendor: flags.target_vendor.names(),
        target_has_atomic: flags.target_has_atomic.names(),
        panic: flags.panic.names(),
        test: flags.test,
        debug_assertions: flags.debug_assertions,
        proc_macro: flags.proc_macro,
    }
}

/// Whether any of the settings holds.
pub open spec fn any_holds(settings: Seq<(Seq<char>, bool)>) -> bool {
    exists|i: int| 0 <= i < settings.len() && (#[trigger] settings[i]).1
}

/// The names chosen among two lists of settings are those of the one and then those of the other.
proof fn names_are_chosen_in_order(a: Seq<(Seq<char>, bool)>, b: Seq<(Seq<char>, bool)>)
    ensures
        chosen(a + b, (a + b).len() as int) == chosen(a, a.len() as int) + chosen(
            b,
            b.len() as int,
        ),
    decreases b.len(),
{
    if b.len() == 0 {
        assert(a + b =~= a);
        assert(chosen(a, a.len() as int) + chosen(b, 0) =~= chosen(a, a.len() as int));
    } else {
        let rest = b.drop_last();
        names_are_chosen_in_order(a, rest);
        same_settings_same_names(a + b, a + rest, (a + rest).len() as int);
        same_settings_same_names(b, rest, rest.len() as int);
        assert((a + b)[(a + b).len() - 1] == b.last());
        assert(chosen(a + b, (a + b).len() as int) =~= chosen(a, a.len() as int) + chosen(
            b,
            b.len() as int,
        ));
    }
}

/// The names chosen among the first settings depend on those settings alone.
proof fn same_settings_same_names(
    a: Seq<(Seq<char>, bool)>,
    b: Seq<(Seq<char>, bool)>,
    n: int,
)
    requires
        0 <= n <= a.len(),
        n <= b.len(),
        forall|i: int| 0 <= i < n ==> a[i] == b[i],
    ensures
        chosen(a, n) == chosen(b, n),
    decreases n,
{
    if n > 0 {
        same_settings_same_names(a, b, n - 1);
    }
}

/// A name is chosen where any setting holds.
proof fn some_are_chosen(settings: Seq<(Seq<char>, bool)>, n: int)
    requires
        0 <= n <= settings.len(),
    ensures
        chosen(settings, n).len() > 0 <==> exists|i: int|
            0 <= i < n && (#[trigger] settings[i]).1,
    decreases n,
{
    if n > 0 {
        some_are_chosen(settings, n - 1);
        if settings[n - 1].1 {
            assert(chosen(settings, n).len() > 0);
        }
    }
}

/// What is told of settings is what is told of each, in order: the name of one that holds, nothing of
/// one that does not, and a comma and a space between names.
pub proof fn settings_are_told_in_order(
    a: Seq<(Seq<char>, bool)>,
    b: Seq<(Seq<char>, bool)>,
    name: Seq<char>,
)
    ensures
        listed(seq![(name, true)]) == name,
        !any_holds(a) ==> listed(a) == Seq::<char>::empty(),
        !any_holds(a) ==> listed(a + b) == listed(b),
        !any_holds(b) ==> listed(a + b) == listed(a),
        any_holds(a) && any_holds(b) ==> listed(a + b) == listed(a) + ", "@ + listed(b),
{
    let x = chosen(a, a.len() as int);
    let y = chosen(b, b.len() as int);
    some_are_chosen(a, a.len() as int);
    some_are_chosen(b, b.len() as int);
    names_are_chosen_in_order(a, b);
    let one = seq![(name, true)];
    assert(chosen(one, 1) =~= seq![name]) by {
        reveal_with_fuel(chosen, 2);
    }
    text::lists_join_part_by_part(seq![name], seq![name], name, ", "@);
    if x.len() == 0 {
        assert(x + y =~= y);
    }
    if y.len() == 0 {
        assert(x + y =~= x);
    }
    if x.len() > 0 && y.len() > 0 {
        text::lists_join_part_by_part(x, y, name, ", "@);
    }
}

/// The architectures are told by their names, each where it holds.
pub proof fn architectures_are_told_by_name(flags: TargetArch)
    ensures
        flags.settings().len() == 7,
        flags.settings()[0] == ("x86"@, flags.x86),
        flags.settings()[1] == ("x86_64"@, flags.x86_64),
        flags.settings()[2] == ("mips"@, flags.mips),
        flags.settings()[3] == ("powerpc"@, flags.powerpc),
        flags.settings()[4] == ("powerpc64"@, flags.powerpc64),
        flags.settings()[5] == ("arm"@, flags.arm),
        flags.settings()[6] == ("aarch64"@, flags.aarch64),
{
}

/// The features are told by their names, each where it holds.
pub proof fn features_are_told_by_name(flags: TargetFeature)
    ensures
        flags.settings().len() == 7,
        flags.settings()[0] == ("avx"@, flags.avx),
        flags.settings()[1] == ("avx2"@, flags.avx2),
        flags.settings()[2] == ("crt-static"@, flags.crt_static),
        flags.settings()[3] == ("rdrand"@, flags.rdrand),
        flags.settings()[4] == ("sse"@, flags.sse),
        flags.settings()[5] == ("sse2"@, flags.sse2),
        flags.settings()[6] == ("sse4.1"@, flags.sse4_1),
{
}

/// The systems are told by their names, each where it holds.
pub proof fn systems_are_told_by_name(flags: TargetOs)
    ensures
        flags.settings().len() == 9,
        flags.settings()[0] == ("linux"@, flags.linux),
        flags.settings()[1] == ("windows"@, flags.windows),
        flags.settings()[2] == ("macos"@, flags.macos),
        flags.settings()[3] == ("android"@, flags.android),
        flags.settings()[4] == ("ios"@, flags.ios),
        flags.settings()[5] == ("freebsd"@, flags.freebsd),
        flags.settings()[6] == ("dragonfly"@, flags.dragonfly),
        flags.settings()[7] == ("openbsd"@, flags.openbsd),
        flags.settings()[8] == ("none"@, flags.none),
{
}

/// The families are told by their names, each where it holds.
pub proof fn families_are_told_by_name(flags: TargetFamily)
    ensures
        flags.settings().len() == 3,
        flags.settings()[0] == ("unix"@, flags.unix),
        flags.settings()[1] == ("windows"@, flags.windows),
        flags.settings()[2] == ("wasm"@, flags.wasm),
{
}

/// The environments are told by their names, each where it holds.
pub proof fn environments_are_told_by_name(flags: TargetEnv)
    ensures
        flags.settings().len() == 4,
        flags.settings()[0] == ("gnu"@, flags.gnu),
        flags.settings()[1] == ("musl"@, flags.musl),
        flags.settings()[2] == ("sgx"@, flags.sgx),
        flags.settings()[3] == ("msvc"@, flags.msvc),
{
}

/// The byte orders are told by their names, each where it holds.
pub proof fn byte_orders_are_told_by_name(flags: TargetEndian)
    ensures
        flags.settings().len() == 2,
        flags.settings()[0] == ("little"@, flags.little),
        flags.settings()[1] == ("big"@, flags.big),
{
}

/// The pointer widths are told by their names, each where it holds.
pub proof fn pointer_widths_are_told_by_name(flags: TargetPointerWidth)
    ensures
        flags.settings().len() == 3,
        flags.settings()[0] == ("64"@, flags.bits_64),
        flags.settings()[1] == ("32"@, flags.bits_32),
        flags.settings()[2] == ("16"@, flags.bits_16),
{
}

/// The vendors are told by their names, each where it holds.
pub proof fn vendors_are_told_by_name(flags: TargetVendor)
    ensures
        flags.settings().len() == 4,
        flags.settings()[0] == ("pc"@, flags.pc),
        flags.settings()[1] == ("apple"@, flags.apple),
        flags.settings()[2] == ("fortanix"@, flags.fortanix),
        flags.settings()[3] == ("unknown"@, flags.unknown),
{
}

/// The atomic widths are told by their names, each where it holds.
pub proof fn atomic_widths_are_told_by_name(flags: TargetHasAtomic)
    ensures
        flags.settings().len() == 6,
        flags.settings()[0] == ("8"@, flags.bits_8),
        flags.settings()[1] == ("16"@, flags.bits_16),
        flags.settings()[2] == ("32"@, flags.bits_32),
        flags.settings()[3] == ("64"@, flags.bits_64),
        flags.settings()[4] == ("128"@, flags.bits_128),
        flags.settings()[5] == ("ptr"@, flags.ptr),
{
}

/// The panics are told by their names, each where it holds.
pub proof fn panics_are_told_by_name(flags: Panic)
    ensures
        flags.settings().len() == 2,
        flags.settings()[0] == ("unwind"@, flags.unwind),
        flags.settings()[1] == ("abort"@, flags.abort),
{
}

} // verus!
