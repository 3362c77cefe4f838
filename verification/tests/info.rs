use sosistab2_obfsws::info::{
    cfg_info, CfgFlags, Panic, TargetArch, TargetEndian, TargetEnv, TargetFamily, TargetFeature,
    TargetHasAtomic, TargetOs, TargetPointerWidth, TargetVendor,
};

fn flags(b: bool) -> CfgFlags {
    CfgFlags {
        target_arch: TargetArch {
            x86: b,
            x86_64: b,
            mips: b,
            powerpc: b,
            powerpc64: b,
            arm: b,
            aarch64: b,
        },
        target_feature: TargetFeature {
            avx: b,
            avx2: b,
            crt_static: b,
            rdrand: b,
            sse: b,
            sse2: b,
            sse4_1: b,
        },
        target_os: TargetOs {
            linux: b,
            windows: b,
            macos: b,
            android: b,
            ios: b,
            freebsd: b,
            dragonfly: b,
            openbsd: b,
            none: b,
        },
        target_family: TargetFamily { unix: b, windows: b, wasm: b },
        target_env: TargetEnv { gnu: b, musl: b, sgx: b, msvc: b },
        target_endian: TargetEndian { little: b, big: b },
        target_pointer_width: TargetPointerWidth { bits_64: b, bits_32: b, bits_16: b },
        target_vendor: TargetVendor { pc: b, apple: b, fortanix: b, unknown: b },
        target_has_atomic: TargetHasAtomic {
            bits_8: b,
            bits_16: b,
            bits_32: b,
            bits_64: b,
            bits_128: b,
            ptr: b,
        },
        panic: Panic { unwind: b, abort: b },
        test: b,
        debug_assertions: b,
        proc_macro: b,
    }
}

#[test]
fn all_settings_are_listed_in_order() {
    let info = cfg_info(&flags(true));
    assert_eq!(info.target_arch, "x86, x86_64, mips, powerpc, powerpc64, arm, aarch64");
    assert_eq!(info.target_feature, "avx, avx2, crt-static, rdrand, sse, sse2, sse4.1");
    assert_eq!(
        info.target_os,
        "linux, windows, macos, android, ios, freebsd, dragonfly, openbsd, none"
    );
    assert_eq!(info.target_family, "unix, windows, wasm");
    assert_eq!(info.target_env, "gnu, musl, sgx, msvc");
    assert_eq!(info.target_endian, "little, big");
    assert_eq!(info.target_pointer_width, "64, 32, 16");
    assert_eq!(info.target_vendor, "pc, apple, fortanix, unknown");
    assert_eq!(info.target_has_atomic, "8, 16, 32, 64, 128, ptr");
    assert_eq!(info.panic, "unwind, abort");
    assert!(info.test);
    assert!(info.debug_assertions);
    assert!(info.proc_macro);
}

#[test]
fn settings_that_do_not_hold_are_left_out() {
    let info = cfg_info(&flags(false));
    assert_eq!(info.target_arch, "");
    assert_eq!(info.panic, "");
    assert!(!info.test);
    assert!(!info.debug_assertions);
    assert!(!info.proc_macro);

    let mut some = flags(false);
    some.target_feature.avx2 = true;
    some.target_feature.sse4_1 = true;
    some.target_os.none = true;
    let info = cfg_info(&some);
    assert_eq!(info.target_feature, "avx2, sse4.1");
    assert_eq!(info.target_os, "none");
}
