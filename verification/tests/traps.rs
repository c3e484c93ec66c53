use lib::palm::cpu::memory::MemoryMap;
use lib::palm::cpu::state::CpuState68k;
use lib::palm::trap_stub::dispatch::apply_prc_runtime_trap_stub;
use lib::palm::trap_stub::heap::MemBlock;
use lib::palm::trap_stub::{PrcRuntimeContext, RuntimeEvent, EVT_FRM_LOAD, EVT_FRM_OPEN};

const SP: u32 = 0x1000;

fn runtime() -> PrcRuntimeContext {
    PrcRuntimeContext {
        default_stubbed_traps: Vec::new(),
        features: Vec::new(),
        rand_state: 0,
        ticks: 0,
        active_form_id: None,
        form_return_stack: Vec::new(),
        event_queue: Vec::new(),
        startup_open_dispatched: true,
        active_form_handle: 0,
        focused_field_index: None,
        shutting_down: false,
        current_font: 0,
        mem_blocks: Vec::new(),
        next_handle: 1,
        next_ptr: 0,
    }
}

fn setup() -> (CpuState68k, PrcRuntimeContext, MemoryMap) {
    let mut cpu = CpuState68k::new();
    cpu.a[7] = SP;
    (cpu, runtime(), MemoryMap::new(SP, vec![0u8; 256]))
}

fn trap(cpu: &mut CpuState68k, rt: &mut PrcRuntimeContext, m: &mut MemoryMap, w: u16) -> bool {
    apply_prc_runtime_trap_stub(cpu, rt, m, w, 0x2000, false)
}

#[test]
fn stubbed_trap_is_recorded_once() {
    let (mut cpu, mut rt, mut m) = setup();
    assert!(trap(&mut cpu, &mut rt, &mut m, 0xA0F7));
    assert!(trap(&mut cpu, &mut rt, &mut m, 0xA0F7));
    assert!(trap(&mut cpu, &mut rt, &mut m, 0xA2E9));
    assert_eq!(rt.default_stubbed_traps, vec![0xA0F7, 0xA2E9]);
}

#[test]
fn ftr_set_then_ftr_get_reads_the_value_back() {
    let (mut cpu, mut rt, mut m) = setup();
    let creator = u32::from_be_bytes(*b"TEST");
    m.write_u32_be(SP, creator);
    m.write_u16_be(SP + 4, 7);
    m.write_u32_be(SP + 6, 0xCAFE_F00D);
    cpu.d[0] = 99;
    assert!(trap(&mut cpu, &mut rt, &mut m, 0xA27C));
    assert_eq!(cpu.d[0], 0);
    m.write_u32_be(SP + 6, SP + 0x80);
    assert!(trap(&mut cpu, &mut rt, &mut m, 0xA27B));
    assert_eq!(cpu.d[0], 0);
    assert_eq!(m.read_u32_be(SP + 0x80), Some(0xCAFE_F00D));
}

#[test]
fn ftr_get_answers_the_rom_version_and_refuses_unknown_features() {
    let (mut cpu, mut rt, mut m) = setup();
    m.write_u32_be(SP, u32::from_be_bytes(*b"psys"));
    m.write_u16_be(SP + 4, 1);
    m.write_u32_be(SP + 6, SP + 0x80);
    assert!(trap(&mut cpu, &mut rt, &mut m, 0xA27B));
    assert_eq!(cpu.d[0], 0);
    assert_eq!(m.read_u32_be(SP + 0x80), Some(0x0500_0000));

    m.write_u32_be(SP, u32::from_be_bytes(*b"abcd"));
    m.write_u32_be(SP + 0x80, 0x1234_5678);
    assert!(trap(&mut cpu, &mut rt, &mut m, 0xA27B));
    assert_eq!(cpu.d[0], 1);
    assert_eq!(m.read_u32_be(SP + 0x80), Some(0));
}

#[test]
fn clock_traps_report_ticks_and_rate() {
    let (mut cpu, mut rt, mut m) = setup();
    rt.ticks = 250;
    assert!(trap(&mut cpu, &mut rt, &mut m, 0xA0F7));
    assert_eq!(cpu.d[0], 250);
    assert!(trap(&mut cpu, &mut rt, &mut m, 0xA0F5));
    assert_eq!(cpu.d[0], 2);
    cpu.d[0] = 0x1234_0000;
    assert!(trap(&mut cpu, &mut rt, &mut m, 0xA2E9));
    assert_eq!(cpu.d[0], 0x1234_0064);
}

#[test]
fn sys_random_steps_the_generator_from_the_seed() {
    let (mut cpu, mut rt, mut m) = setup();
    m.write_u32_be(SP, 1);
    cpu.d[0] = 0xABCD_0000;
    assert!(trap(&mut cpu, &mut rt, &mut m, 0xA0C2));
    assert_eq!(rt.rand_state, 1_015_568_748);
    assert_eq!(cpu.d[0], 0xABCD_0000 | 21117);
}

#[test]
fn str_len_counts_up_to_the_nul() {
    let (mut cpu, mut rt, mut m) = setup();
    for (i, b) in b"Hello\0".iter().enumerate() {
        m.write_u8(SP + 0x40 + i as u32, *b);
    }
    m.write_u32_be(SP, SP + 0x40);
    assert!(trap(&mut cpu, &mut rt, &mut m, 0xA0C7));
    assert_eq!(cpu.d[0], 5);
}

#[test]
fn popup_then_return_restores_the_form_stack() {
    let (mut cpu, mut rt, mut m) = setup();
    rt.active_form_id = Some(1000);
    m.write_u16_be(SP, 1100);
    assert!(trap(&mut cpu, &mut rt, &mut m, 0xA19C));
    assert_eq!(rt.form_return_stack, vec![1000]);
    assert!(!rt.startup_open_dispatched);
    m.write_u16_be(SP, 0);
    assert!(trap(&mut cpu, &mut rt, &mut m, 0xA19E));
    assert!(rt.form_return_stack.is_empty());
    assert_eq!(
        rt.event_queue,
        vec![
            RuntimeEvent { e_type: EVT_FRM_LOAD, data_u16: 1100 },
            RuntimeEvent { e_type: EVT_FRM_OPEN, data_u16: 1100 },
            RuntimeEvent { e_type: EVT_FRM_LOAD, data_u16: 1000 },
            RuntimeEvent { e_type: EVT_FRM_OPEN, data_u16: 1000 },
        ]
    );
}

#[test]
fn goto_form_queues_its_load_and_open_events() {
    let (mut cpu, mut rt, mut m) = setup();
    m.write_u16_be(SP, 2000);
    cpu.d[0] = 5;
    assert!(trap(&mut cpu, &mut rt, &mut m, 0xA19B));
    assert_eq!(cpu.d[0], 0);
    assert_eq!(rt.event_queue.len(), 2);
    assert_eq!(rt.event_queue[1], RuntimeEvent { e_type: EVT_FRM_OPEN, data_u16: 2000 });
}

#[test]
fn heap_blocks_are_allocated_sized_and_freed() {
    let (mut cpu, mut rt, mut m) = setup();
    m.write_u32_be(SP, 32);
    assert!(trap(&mut cpu, &mut rt, &mut m, 0xA01E));
    assert_eq!(cpu.a[0], 1);
    assert_eq!(cpu.d[0], 1);
    assert_eq!(rt.mem_blocks, vec![MemBlock { handle: 1, ptr: 0x2000_0000, size: 32, locked: false }]);
    assert_eq!(rt.next_handle, 2);
    assert_eq!(rt.next_ptr, 0x2000_0000 + 48);

    m.write_u32_be(SP, 1);
    assert!(trap(&mut cpu, &mut rt, &mut m, 0xA02D));
    assert_eq!(cpu.d[0], 32);
    assert!(trap(&mut cpu, &mut rt, &mut m, 0xA02B));
    assert_eq!(cpu.d[0], 0);
    assert!(rt.mem_blocks.is_empty());
    assert!(trap(&mut cpu, &mut rt, &mut m, 0xA02B));
    assert_eq!(cpu.d[0], 1);
}

#[test]
fn mem_ptr_new_returns_the_address_and_small_requests_get_sixteen_bytes() {
    let (mut cpu, mut rt, mut m) = setup();
    rt.next_ptr = 0x2000_0100;
    m.write_u32_be(SP, 0);
    assert!(trap(&mut cpu, &mut rt, &mut m, 0xA013));
    assert_eq!(cpu.a[0], 0x2000_0100);
    assert_eq!(rt.mem_blocks[0].size, 16);
    m.write_u32_be(SP, 0x2000_0100);
    assert!(trap(&mut cpu, &mut rt, &mut m, 0xA012));
    assert_eq!(cpu.d[0], 0);
    assert!(rt.mem_blocks.is_empty());
}

#[test]
fn free_takes_out_only_the_matching_block() {
    let (mut cpu, mut rt, mut m) = setup();
    rt.mem_blocks = vec![
        MemBlock { handle: 1, ptr: 0x2000_0000, size: 16, locked: false },
        MemBlock { handle: 2, ptr: 0x2000_0020, size: 16, locked: true },
        MemBlock { handle: 3, ptr: 0x2000_0040, size: 16, locked: false },
    ];
    m.write_u32_be(SP, 0x2000_0000);
    assert!(trap(&mut cpu, &mut rt, &mut m, 0xA02B));
    assert_eq!(cpu.d[0], 0);
    assert_eq!(
        rt.mem_blocks,
        vec![
            MemBlock { handle: 3, ptr: 0x2000_0040, size: 16, locked: false },
            MemBlock { handle: 2, ptr: 0x2000_0020, size: 16, locked: true },
        ]
    );
}

#[test]
fn unlock_clears_the_lock() {
    let (mut cpu, mut rt, mut m) = setup();
    rt.mem_blocks = vec![MemBlock { handle: 9, ptr: 0x2000_0000, size: 16, locked: true }];
    m.write_u32_be(SP, 9);
    assert!(trap(&mut cpu, &mut rt, &mut m, 0xA022));
    assert!(!rt.mem_blocks[0].locked);
}

#[test]
fn traps_left_to_the_caller_change_nothing_but_the_record() {
    let (mut cpu, mut rt, mut m) = setup();
    cpu.d[0] = 77;
    assert!(!trap(&mut cpu, &mut rt, &mut m, 0xA164));
    assert_eq!(cpu.d[0], 77);
    assert_eq!(rt.default_stubbed_traps, vec![0xA164]);
}

#[test]
fn a_trap_taken_by_the_database_stubs_goes_no_further() {
    let (mut cpu, mut rt, mut m) = setup();
    cpu.d[0] = 77;
    assert!(apply_prc_runtime_trap_stub(&mut cpu, &mut rt, &mut m, 0xA0F7, 0x2000, true));
    assert_eq!(cpu.d[0], 77);
    assert_eq!(rt.default_stubbed_traps, vec![0xA0F7]);
}

#[test]
fn other_traps_clear_d0_and_app_exit_flags_shutdown() {
    let (mut cpu, mut rt, mut m) = setup();
    cpu.d[0] = 77;
    assert!(trap(&mut cpu, &mut rt, &mut m, 0xA999));
    assert_eq!(cpu.d[0], 0);
    cpu.d[0] = 77;
    assert!(trap(&mut cpu, &mut rt, &mut m, 0xA090));
    assert_eq!(cpu.d[0], 0);
    assert!(rt.shutting_down);
    cpu.d[0] = 0x0001_0000;
    assert!(trap(&mut cpu, &mut rt, &mut m, 0xA18C));
    assert_eq!(cpu.d[0], 0x0001_FFFF);
    assert!(trap(&mut cpu, &mut rt, &mut m, 0xA200));
    assert_eq!(cpu.a[0], 0x4000_0000);
}

#[test]
fn day_of_week_follows_the_calendar() {
    let (mut cpu, mut rt, mut m) = setup();
    m.write_u16_be(SP, 1);
    m.write_u16_be(SP + 2, 1);
    m.write_u16_be(SP + 4, 2000);
    cpu.d[0] = 0x0005_0000;
    assert!(trap(&mut cpu, &mut rt, &mut m, 0xA25F));
    assert_eq!(cpu.d[0], 0x0005_0006);
    m.write_u16_be(SP, 7);
    m.write_u16_be(SP + 2, 4);
    m.write_u16_be(SP + 4, 2024);
    assert!(trap(&mut cpu, &mut rt, &mut m, 0xA25F));
    assert_eq!(cpu.d[0] & 0xFFFF, 4);
}

#[test]
fn sys_lib_find_writes_reference_number_one() {
    let (mut cpu, mut rt, mut m) = setup();
    cpu.a[1] = SP + 0x40;
    cpu.d[0] = 9;
    assert!(trap(&mut cpu, &mut rt, &mut m, 0xA0BA));
    assert_eq!(m.read_u16_be(SP + 0x40), Some(1));
    assert_eq!(cpu.d[0], 0);
}

#[test]
fn win_get_bounds_reports_the_palm_screen() {
    let (mut cpu, mut rt, mut m) = setup();
    m.write_u32_be(SP + 4, SP + 0x60);
    assert!(trap(&mut cpu, &mut rt, &mut m, 0xA456));
    assert_eq!(m.read_u16_be(SP + 0x60), Some(0));
    assert_eq!(m.read_u16_be(SP + 0x62), Some(0));
    assert_eq!(m.read_u16_be(SP + 0x64), Some(160));
    assert_eq!(m.read_u16_be(SP + 0x66), Some(160));
}

#[test]
fn set_active_form_queues_its_events_once() {
    let (mut cpu, mut rt, mut m) = setup();
    rt.focused_field_index = Some(2);
    m.write_u32_be(SP, 0x3000_03E8);
    cpu.d[0] = 5;
    assert!(trap(&mut cpu, &mut rt, &mut m, 0xA174));
    assert_eq!(cpu.d[0], 5);
    assert_eq!(rt.active_form_handle, 0x3000_03E8);
    assert_eq!(rt.active_form_id, Some(1000));
    assert_eq!(rt.focused_field_index, None);
    assert_eq!(rt.event_queue.len(), 2);
    assert!(trap(&mut cpu, &mut rt, &mut m, 0xA174));
    assert_eq!(rt.event_queue.len(), 2);
    assert!(trap(&mut cpu, &mut rt, &mut m, 0xA173));
    assert_eq!(cpu.a[0], 0x3000_03E8);
}

#[test]
fn pins_dispatch_answers_by_selector() {
    let (mut cpu, mut rt, mut m) = setup();
    cpu.d[2] = 1;
    assert!(trap(&mut cpu, &mut rt, &mut m, 0xA470));
    assert_eq!(cpu.d[0], 2);
    cpu.d[2] = 18;
    cpu.a[1] = SP + 0x40;
    m.write_u32_be(SP + 0x40, 0xFFFF_FFFF);
    assert!(trap(&mut cpu, &mut rt, &mut m, 0xA470));
    assert_eq!(cpu.d[0], 0);
    assert_eq!(m.read_u32_be(SP + 0x40), Some(0));
}

#[test]
fn seconds_to_date_time_fills_the_record() {
    let (mut cpu, mut rt, mut m) = setup();
    m.write_u32_be(SP, 90_061);
    m.write_u32_be(SP + 4, SP + 0x80);
    assert!(trap(&mut cpu, &mut rt, &mut m, 0xA0FC));
    let fields: Vec<u16> = (0..7).map(|i| m.read_u16_be(SP + 0x80 + 2 * i).unwrap()).collect();
    assert_eq!(fields, vec![1, 1, 1, 2, 1, 2000, 1]);
    assert_eq!(cpu.d[0], 0);
}

#[test]
fn pref_get_preferences_clears_the_record() {
    let (mut cpu, mut rt, mut m) = setup();
    for i in 0..80u32 {
        m.write_u8(SP + 0x40 + i, 0xFF);
    }
    cpu.a[0] = SP + 0x40;
    assert!(trap(&mut cpu, &mut rt, &mut m, 0xA22C));
    assert!((0..64u32).all(|i| m.read_u8(SP + 0x40 + i) == Some(0)));
    assert_eq!(m.read_u8(SP + 0x40 + 64), Some(0xFF));
}

#[test]
fn lock_places_an_unplaced_block_past_the_others() {
    let (mut cpu, mut rt, mut m) = setup();
    rt.mem_blocks = vec![
        MemBlock { handle: 4, ptr: 0x2000_0000, size: 16, locked: false },
        MemBlock { handle: 5, ptr: 0, size: 32, locked: false },
    ];
    m.write_u32_be(SP, 5);
    assert!(trap(&mut cpu, &mut rt, &mut m, 0xA021));
    assert_eq!(cpu.a[0], 0x2000_0020);
    assert_eq!(cpu.a[2], 0x2000_0020);
    assert_eq!(rt.mem_blocks[1], MemBlock { handle: 5, ptr: 0x2000_0020, size: 32, locked: true });
    assert_eq!(rt.next_ptr, 0x2000_0020 + 48);
    m.write_u32_be(SP, 77);
    assert!(trap(&mut cpu, &mut rt, &mut m, 0xA021));
    assert_eq!(cpu.a[0], 0);
}
