use rcore_kernel::context::{
    build_sstatus, code_length, ForeignContext, LocalContext, PortalCache, PortalText,
    INTERRUPT_BIT, PRIVILEGE_BIT,
};
use rcore_kernel::transit::TransitKernel;

fn blank_cache() -> PortalCache {
    PortalCache { a0: 0, ra: 11, satp: 0, sstatus: 0, sepc: 0, stvec: 22, sscratch: 33 }
}

#[test]
fn sstatus_sets_and_clears_the_two_bits() {
    assert_eq!(build_sstatus(0, true, true), PRIVILEGE_BIT | INTERRUPT_BIT);
    assert_eq!(build_sstatus(0xffff, false, false), 0xffff & !(PRIVILEGE_BIT | INTERRUPT_BIT));
    assert_eq!(build_sstatus(0x2, true, false), 0x102);
    assert_eq!(build_sstatus(0x122, false, true), 0x22);
}

#[test]
fn fresh_contexts() {
    let u = LocalContext::user(0x8000);
    assert_eq!(u.pc(), 0x8000);
    assert!(!u.supervisor);
    assert!(u.interrupt);
    for n in 1..=31 {
        assert_eq!(u.x(n), 0);
    }
    let t = LocalContext::thread(0x9000, false);
    assert!(t.supervisor);
    assert!(!t.interrupt);
    assert_eq!(t.pc(), 0x9000);
    let e = LocalContext::empty();
    assert_eq!(e.pc(), 0);
    assert!(!e.supervisor);
    assert!(!e.interrupt);
}

#[test]
fn register_aliases() {
    let mut c = LocalContext::empty();
    *c.x_mut(1) = 5;
    *c.sp_mut() = 0x4000;
    *c.a_mut(0) = 7;
    *c.a_mut(7) = 64;
    assert_eq!(c.ra(), 5);
    assert_eq!(c.sp(), 0x4000);
    assert_eq!(c.x(2), 0x4000);
    assert_eq!(c.a(0), 7);
    assert_eq!(c.x(10), 7);
    assert_eq!(c.x(17), 64);
    *c.pc_mut() = 0x100;
    c.move_next();
    assert_eq!(c.pc(), 0x104);
}

#[test]
fn move_next_wraps() {
    let mut c = LocalContext::user(usize::MAX - 1);
    c.move_next();
    assert_eq!(c.pc(), 2);
}

#[test]
fn portal_cache_init_keeps_saved_fields() {
    let mut cache = blank_cache();
    cache.init(0x8000_0000_0000_1234, 0x1000, 42, false, true, 0x100);
    assert_eq!(cache.satp, 0x8000_0000_0000_1234);
    assert_eq!(cache.sepc, 0x1000);
    assert_eq!(cache.a0, 42);
    assert_eq!(cache.sstatus, INTERRUPT_BIT);
    assert_eq!(cache.ra, 11);
    assert_eq!(cache.stvec, 22);
    assert_eq!(cache.sscratch, 33);
}

#[test]
fn portal_round_trip_restores_settings() {
    let mut ctx = LocalContext::user(0x1000);
    *ctx.a_mut(0) = 5;
    let mut foreign = ForeignContext { context: ctx, satp: 0x8000_0000_0000_0042 };
    let mut cache = blank_cache();
    let visit = foreign.enter_portal(0xffff_ffc0_0000_0000, &mut cache, 0xffff_ffc0_0000_0100, 0);
    assert!(foreign.context.supervisor);
    assert!(!foreign.context.interrupt);
    assert_eq!(foreign.context.pc(), 0xffff_ffc0_0000_0000);
    assert_eq!(foreign.context.a(0), 0xffff_ffc0_0000_0100);
    assert_eq!(cache.satp, 0x8000_0000_0000_0042);
    assert_eq!(cache.sepc, 0x1000);
    assert_eq!(cache.a0, 5);
    assert_eq!(cache.sstatus, INTERRUPT_BIT);
    cache.a0 = 99;
    foreign.leave_portal(visit, &cache);
    assert!(!foreign.context.supervisor);
    assert!(foreign.context.interrupt);
    assert_eq!(foreign.context.a(0), 99);
}

#[test]
fn portal_text_rounds_to_words() {
    let word = core::mem::size_of::<usize>();
    assert_eq!(PortalText(vec![]).aligned_size(), 0);
    assert_eq!(PortalText(vec![0x1234]).aligned_size(), word);
    assert_eq!(PortalText(vec![0; 5]).aligned_size(), ((10 + word - 1) / word) * word);
    assert_eq!(PortalText(vec![0; 4 * word]).aligned_size(), 8 * word);
}

#[test]
fn transit_kernel_starts_blank() {
    let k = TransitKernel::new();
    assert_eq!(k.shared_context.satp, 0);
    assert_eq!(k.shared_context.context.pc(), 0);
    assert!(k.execute_copy.iter().all(|w| *w == 0));
    assert!(k.trap_copy.iter().all(|w| *w == 0));
}

#[test]
fn code_length_finds_first_end() {
    let code = [1u16, 2, 3, 0x8502, 0, 5, 0x8502, 0];
    assert_eq!(code_length(&code, &[0x8502, 0], 1), Some(5));
    assert_eq!(code_length(&code, &[0x8502, 0], 6), Some(8));
    assert_eq!(code_length(&code, &[0x8502, 0], 9), None);
    assert_eq!(code_length(&code, &[7, 7], 1), None);
}

#[test]
fn portal_text_is_located_by_its_end() {
    let mut code = vec![0x1111u16; 10];
    code.extend_from_slice(&[0x8502, 0]);
    code.extend_from_slice(&[0x2222; 21]);
    code.extend_from_slice(&[0x8502, 0, 7, 7]);
    let text = PortalText::locate(&code).unwrap();
    assert_eq!(text.0.len(), 35);
    assert_eq!(&text.0[..], &code[..35]);
    assert!(PortalText::locate(&[0x8502, 0]).is_none());
}

#[test]
fn transit_kernel_copies_routines() {
    let mut k = TransitKernel::new();
    let execute = [1u16, 2, 3, 0x0073, 0x1020, 0, 9, 9];
    let trap = [5u16, 0x8082, 0];
    assert!(k.init(&execute, &trap));
    assert_eq!(k.execute_copy[0], 0x0002_0001);
    assert_eq!(k.execute_copy[1], 0x0073_0003);
    assert_eq!(k.execute_copy[2], 0x0000_1020);
    assert!(k.execute_copy[3..].iter().all(|w| *w == 0));
    assert_eq!(k.trap_copy[0], 0x8082_0005);
    assert!(k.trap_copy[1..].iter().all(|w| *w == 0));
}

#[test]
fn transit_routine_end_must_follow_code() {
    let mut k = TransitKernel::new();
    let execute = [0x0073u16, 0x1020, 0, 0x0073, 0x1020, 0];
    let trap = [0x8082u16, 0, 0x8082, 0];
    assert!(k.init(&execute, &trap));
    assert_eq!(k.execute_copy[0], 0x1020_0073);
    assert_eq!(k.execute_copy[2], 0x0000_1020);
    assert_eq!(k.trap_copy[1], 0x0000_8082);
}

#[test]
fn transit_kernel_refuses_missing_or_long_routines() {
    let mut k = TransitKernel::new();
    assert!(!k.init(&[1, 2, 3], &[0x8082, 0]));
    let mut long = vec![1u16; 300];
    long.extend_from_slice(&[0x8082, 0]);
    assert!(!k.init(&[1, 0x0073, 0x1020, 0], &long));
    assert!(k.execute_copy.iter().all(|w| *w == 0));
    assert!(k.trap_copy.iter().all(|w| *w == 0));
}
