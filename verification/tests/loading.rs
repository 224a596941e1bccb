use rcore_kernel::linker::{AppImage, AppMeta, KernelLayout, KernelRegionTitle};
use rcore_kernel::loader::{flag_bits, plan_from_elf, program_headers_fit, satp_for, LoadPlan};
use rcore_kernel::log_level::{log_level_for, set_log_level, LogLevel};
use rcore_kernel::segment::Segment;
use rcore_kernel::space::{
    build_pte, early_kernel_flags, flags_contain, kernel_space, mmio_mappings, page_image, KernelMapping,
    Mapper,
    Visitor, WalkStep,
};

fn put(b: &mut [u8], at: usize, v: u64, n: usize) {
    for i in 0..n {
        b[at + i] = (v >> (8 * i)) as u8;
    }
}

fn program(b: &mut [u8], at: usize, kind: u32, flags: u32, off: u64, vaddr: u64, filesz: u64, memsz: u64) {
    put(b, at, kind as u64, 4);
    put(b, at + 4, flags as u64, 4);
    put(b, at + 8, off, 8);
    put(b, at + 16, vaddr, 8);
    put(b, at + 24, vaddr, 8);
    put(b, at + 32, filesz, 8);
    put(b, at + 40, memsz, 8);
    put(b, at + 48, 0x1000, 8);
}

/// A 64-bit RISC-V executable with two loadable segments and a note.
fn sample_elf(e_type: u64, machine: u64) -> Vec<u8> {
    let mut b = vec![0u8; 0x120];
    b[0..4].copy_from_slice(&[0x7f, b'E', b'L', b'F']);
    b[4] = 2;
    b[5] = 1;
    b[6] = 1;
    put(&mut b, 16, e_type, 2);
    put(&mut b, 18, machine, 2);
    put(&mut b, 20, 1, 4);
    put(&mut b, 24, 0x10100, 8);
    put(&mut b, 32, 64, 8);
    put(&mut b, 52, 64, 2);
    put(&mut b, 54, 56, 2);
    put(&mut b, 56, 3, 2);
    program(&mut b, 64, 1, 5, 0x100, 0x10100, 16, 16);
    program(&mut b, 120, 1, 6, 0x110, 0x11110, 8, 0x2000);
    program(&mut b, 176, 4, 4, 0x118, 0, 4, 4);
    b
}

fn check_plan(plan: &LoadPlan) {
    assert_eq!(plan.entry, 0x10100);
    assert_eq!(plan.segments.len(), 2);
    let s = &plan.segments[0];
    assert_eq!((s.first_page, s.end_page), (0x10, 0x11));
    assert_eq!((s.file_offset, s.file_len, s.page_offset), (0x100, 16, 0x100));
    assert_eq!(&s.flags, b"UX_RV");
    let s = &plan.segments[1];
    assert_eq!((s.first_page, s.end_page), (0x11, 0x14));
    assert_eq!((s.file_offset, s.file_len, s.page_offset), (0x110, 8, 0x110));
    assert_eq!(&s.flags, b"U_WRV");
}

#[test]
fn plans_loadable_segments_of_an_executable() {
    let elf = sample_elf(2, 0xf3);
    assert!(program_headers_fit(&elf));
    let plan = plan_from_elf(&elf).expect("a RISC-V executable");
    check_plan(&plan);
}

#[test]
fn refuses_other_machines_and_kinds() {
    assert!(plan_from_elf(&sample_elf(3, 0xf3)).is_none());
    assert!(plan_from_elf(&sample_elf(2, 0x3e)).is_none());
}

#[test]
fn refuses_garbage_and_short_files() {
    assert!(plan_from_elf(b"not an elf file at all, sorry").is_none());
    assert!(plan_from_elf(&[]).is_none());
    let elf = sample_elf(2, 0xf3);
    assert!(plan_from_elf(&elf[..40]).is_none());
}

#[test]
fn refuses_missing_program_headers() {
    let mut elf = sample_elf(2, 0xf3);
    put(&mut elf, 56, 40, 2);
    assert!(!program_headers_fit(&elf));
    assert!(plan_from_elf(&elf).is_none());
    let mut elf = sample_elf(2, 0xf3);
    put(&mut elf, 54, 16, 2);
    assert!(!program_headers_fit(&elf));
    let mut elf = sample_elf(2, 0xf3);
    put(&mut elf, 32, 68, 8);
    assert!(!program_headers_fit(&elf));
    let mut elf = sample_elf(2, 0xf3);
    put(&mut elf, 56, 0, 2);
    assert!(program_headers_fit(&elf));
}

#[test]
fn refuses_segments_outside_the_file() {
    let mut elf = sample_elf(2, 0xf3);
    program(&mut elf, 64, 1, 5, 0x100, 0x10100, 0x400, 0x400);
    assert!(plan_from_elf(&elf).is_none());
    let mut elf = sample_elf(2, 0xf3);
    program(&mut elf, 64, 1, 5, 0x100, 0x10200, 16, 16);
    assert!(plan_from_elf(&elf).is_none());
}

#[test]
fn satp_selects_sv39() {
    assert_eq!(satp_for(0x8_0123), 0x8000_0000_0008_0123);
}

#[test]
fn log_levels_from_settings() {
    assert_eq!(log_level_for(Some("info")), LogLevel::Info);
    assert_eq!(log_level_for(Some("WARN")), LogLevel::Warn);
    assert_eq!(log_level_for(Some("Off")), LogLevel::Off);
    assert_eq!(log_level_for(Some("bogus")), LogLevel::Trace);
    assert_eq!(log_level_for(None), LogLevel::Trace);
    assert_eq!(set_log_level(Some("error")), LogLevel::Error);
    assert_eq!(set_log_level(None), LogLevel::Trace);
}

#[test]
fn kernel_regions_in_order() {
    let l = KernelLayout::locate(0x8020_0000, 0x8021_0000, 0x8022_0000, 0x8022_8000, 0x8023_0000, 0x8023_0000, 0x8024_0000);
    assert_eq!(l.start(), 0x8020_0000);
    assert_eq!(l.end(), 0x8024_0000);
    assert_eq!(l.len(), 0x4_0000);
    assert_eq!(l.bss(), (0x8022_8000, 0x8023_0000));
    let mut it = l.iter();
    let r = it.next().unwrap();
    assert_eq!(r.title, KernelRegionTitle::Text);
    assert_eq!(r.range, 0x8020_0000..0x8021_0000);
    let r = it.next().unwrap();
    assert_eq!(r.title, KernelRegionTitle::Rodata);
    assert_eq!(r.range, 0x8021_0000..0x8022_0000);
    let r = it.next().unwrap();
    assert_eq!(r.title, KernelRegionTitle::Data);
    assert_eq!(r.range, 0x8022_0000..0x8023_0000);
    let r = it.next().unwrap();
    assert_eq!(r.title, KernelRegionTitle::Boot);
    assert_eq!(r.range, 0x8023_0000..0x8024_0000);
    assert!(it.next().is_none());
    assert!(it.next().is_none());
}

#[test]
fn applications_copied_to_slots() {
    let meta = AppMeta { base: 0x8040_0000, step: 0x20_0000, count: 2, locations: vec![0x8030_0000, 0x8030_1000, 0x8030_1800] };
    let mut it = meta.iter();
    assert_eq!(it.next(), Some(AppImage { source: 0x8030_0000, size: 0x1000, destination: Some(0x8040_0000) }));
    assert_eq!(it.next(), Some(AppImage { source: 0x8030_1000, size: 0x800, destination: Some(0x8060_0000) }));
    assert_eq!(it.next(), None);
}

#[test]
fn applications_run_in_place_without_base() {
    let meta = AppMeta { base: 0, step: 0, count: 1, locations: vec![0x8030_0000, 0x8030_0400] };
    let mut it = meta.iter();
    assert_eq!(it.next(), Some(AppImage { source: 0x8030_0000, size: 0x400, destination: None }));
    assert_eq!(it.next(), None);
}

#[test]
fn page_table_entries() {
    assert_eq!(build_pte(0xb, 0x80200), (0x80200 << 10) | 0xb);
    assert_eq!(build_pte(0x1, u64::MAX), 0x003f_ffff_ffff_fc01);
    assert!(flags_contain(0xf, 0x3));
    assert!(!flags_contain(0x3, 0x4));
}

#[test]
fn mapper_fills_consecutive_frames() {
    let mut m = Mapper::new(0x100, 0x103, 0x7);
    assert_eq!(m.arrive(false), (build_pte(0x7, 0x100), WalkStep::Next));
    assert_eq!(m.arrive(false), (build_pte(0x7, 0x101), WalkStep::Next));
    assert_eq!(m.arrive(false), (build_pte(0x7, 0x102), WalkStep::Stop));
    assert!(m.ans());
    let m = Mapper::new(1, 2, 1);
    assert!(!m.ans());
}

#[test]
fn visitor_keeps_valid_entries() {
    let mut v = Visitor::new();
    assert_eq!(v.arrive(0x1234, false), WalkStep::Stop);
    assert_eq!(v.ans(), None);
    let mut v = Visitor::new();
    assert_eq!(v.arrive(0x1235, true), WalkStep::Stop);
    assert_eq!(v.ans(), Some(0x1235));
}

#[test]
fn page_image_zero_fills_around_data() {
    let img = page_image(4096, &[1, 2, 3], 0x10);
    assert_eq!(img.len(), 4096);
    assert!(img[..0x10].iter().all(|b| *b == 0));
    assert_eq!(&img[0x10..0x13], &[1, 2, 3]);
    assert!(img[0x13..].iter().all(|b| *b == 0));
}

#[test]
fn kernel_space_mappings() {
    let l = KernelLayout::locate(0x8020_0000, 0x8021_0000, 0x8022_0000, 0x8022_8000, 0x8023_0000, 0x8023_0000, 0x8024_0800);
    let m = kernel_space(&l, 0x80_0000, 0x8030_0000);
    assert_eq!(m.len(), 6);
    assert_eq!(m[0], KernelMapping { first_page: 0x80200, end_page: 0x80210, frame: 0x80200, flags: 0xb });
    assert_eq!(m[1], KernelMapping { first_page: 0x80210, end_page: 0x80220, frame: 0x80210, flags: 0x3 });
    assert_eq!(m[2], KernelMapping { first_page: 0x80220, end_page: 0x80230, frame: 0x80220, flags: 0x7 });
    assert_eq!(m[3], KernelMapping { first_page: 0x80230, end_page: 0x80241, frame: 0x80230, flags: 0x7 });
    assert_eq!(m[4], KernelMapping { first_page: 0x80240, end_page: 0x80a00, frame: 0x80240, flags: 0x7 });
    assert_eq!(m[5], KernelMapping { first_page: 0x7ff_ffff, end_page: 0x800_0000, frame: 0x80300, flags: 0x2f });
}

#[test]
fn segments_order_by_first_page() {
    let a = Segment { vbase: 0x10, pbase: 0x80, count: 2, flags: 0x7 };
    let b = Segment { vbase: 0x20, pbase: 0x90, count: 1, flags: 0x3 };
    let c = Segment { vbase: 0x10, pbase: 0xa0, count: 4, flags: 0xb };
    assert!(a.starts_before(&b));
    assert!(!b.starts_before(&a));
    assert!(a.same_start(&c));
    assert!(!a.same_start(&b));
    assert!(a == c);
    assert!(a != b);
    assert!(a < b);
    assert!(b > c);
    assert!(a <= c && a >= c);
    assert_eq!(a.partial_cmp(&b), Some(core::cmp::Ordering::Less));
}

#[test]
fn early_kernel_page_flags() {
    let f = |addr| early_kernel_flags(addr, 0x8020_4000, 0x8020_5000, 0x8021_0000, 0x8030_0000);
    assert_eq!(f(0x8020_0000), Some(0b1011));
    assert_eq!(f(0x8020_4000), Some(0b1111));
    assert_eq!(f(0x8020_5000), Some(0b0011));
    assert_eq!(f(0x8021_0000), Some(0b0111));
    assert_eq!(f(0x802f_f000), Some(0b0111));
    assert_eq!(f(0x8030_0000), None);
}

#[test]
fn permission_texts_to_flag_bits() {
    assert_eq!(flag_bits(b"U_WRV"), 0x17);
    assert_eq!(flag_bits(b"UX_RV"), 0x1b);
    assert_eq!(flag_bits(b"xwrv"), 0xf);
    assert_eq!(flag_bits(b"VRWXUGAD"), 0xff);
    assert_eq!(flag_bits(b"__?__"), 0);
    assert_eq!(flag_bits(b""), 0);
}

#[test]
fn all_application_images_in_order() {
    let meta = AppMeta { base: 0x8040_0000, step: 0x20_0000, count: 3, locations: vec![0x100, 0x180, 0x180, 0x200] };
    assert_eq!(
        meta.images(),
        vec![
            AppImage { source: 0x100, size: 0x80, destination: Some(0x8040_0000) },
            AppImage { source: 0x180, size: 0, destination: Some(0x8060_0000) },
            AppImage { source: 0x180, size: 0x80, destination: Some(0x8080_0000) },
        ]
    );
    let empty = AppMeta { base: 0, step: 0, count: 0, locations: vec![0x100] };
    assert!(empty.images().is_empty());
}

#[test]
fn device_memory_maps_to_itself() {
    let m = mmio_mappings(&[(0x1000_1000, 0x1000), (0x0c00_0000, 0x1800)]);
    assert_eq!(m.len(), 2);
    assert_eq!(m[0], KernelMapping { first_page: 0x10001, end_page: 0x10002, frame: 0x10001, flags: 0x7 });
    assert_eq!(m[1], KernelMapping { first_page: 0xc000, end_page: 0xc002, frame: 0xc000, flags: 0x7 });
}
