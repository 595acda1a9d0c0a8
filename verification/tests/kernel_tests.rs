use felix::exceptions::exception_message;
use felix::fat::FatDriver;
use felix::gdt::GlobalDescriptorTable;
use felix::idt::InterruptDescriptorTable;
use felix::lock::FatMutex;
use felix::shell::{has_signature, Command, Shell};
use felix::vga::Printer;

#[test]
fn second_acquire_waits_for_release() {
    // while the driver is held, a further acquire obtains nothing; after the
    // holder releases, the next acquire succeeds
    let mut lock = FatMutex::new(FatDriver::new());
    let held = lock.acquire().expect("the free driver must be granted");
    assert!(lock.acquire().is_none());
    assert!(lock.acquire().is_none());
    lock.release(held);
    assert!(lock.acquire().is_some());
}

fn type_line(shell: &mut Shell, line: &str) {
    for c in line.chars() {
        shell.add(c);
    }
}

#[test]
fn shell_interprets_commands() {
    let cases: [(&str, Command); 8] = [
        ("ping", Command::Ping),
        ("ls", Command::ListEntries),
        ("ps", Command::ListTasks),
        ("rt 3", Command::RemoveTask(3)),
        ("rt", Command::RemoveTaskMissing),
        ("test a", Command::DummyTaskA),
        ("test b", Command::DummyTaskB),
        ("test c", Command::DummyTaskC),
    ];
    for (line, expected) in cases {
        let mut shell = Shell::new();
        type_line(&mut shell, line);
        assert_eq!(shell.interpret(), expected, "line {:?}", line);
    }
}

#[test]
fn shell_interprets_file_commands() {
    let mut shell = Shell::new();
    type_line(&mut shell, "cat readme.txt");
    assert_eq!(shell.interpret(), Command::Cat(*b"readme.txt\0"));
    let mut shell = Shell::new();
    type_line(&mut shell, "run prog.bin");
    assert_eq!(shell.interpret(), Command::Run(*b"prog.bin\0\0\0"));
}

#[test]
fn shell_falls_through_to_empty_and_unknown() {
    let shell = Shell::new();
    assert_eq!(shell.interpret(), Command::Empty);
    let mut shell = Shell::new();
    type_line(&mut shell, "frobnicate");
    assert_eq!(shell.interpret(), Command::Unknown);
    let mut shell = Shell::new();
    type_line(&mut shell, "test x");
    assert_eq!(shell.interpret(), Command::DummyTaskUnknown);
}

#[test]
fn shell_edits_its_line() {
    let mut shell = Shell::new();
    type_line(&mut shell, "lsx");
    assert_eq!(shell.cursor, 3);
    shell.backspace();
    assert_eq!(shell.cursor, 2);
    assert!(shell.is_command("ls"));
    // the editor nulls the slot one past the line; the stepped-over
    // character stays until overwritten
    assert_eq!(shell.buffer[2], 'x');
    assert_eq!(shell.buffer[3], '\0');
    shell.init();
    assert_eq!(shell.cursor, 0);
    assert_eq!(shell.buffer[0], '\0');
    assert_eq!(shell.interpret(), Command::Empty);
}

#[test]
fn shell_matches_command_prefixes() {
    let mut shell = Shell::new();
    type_line(&mut shell, "lsmore");
    assert!(shell.is_command("ls"));
    assert!(!shell.is_command("ps"));
    assert_eq!(shell.interpret(), Command::ListEntries);
}

#[test]
fn signature_check_reads_first_word() {
    let good: Vec<u8> = vec![0xb5, 0x00, 0x6b, 0xb1, 0x99];
    assert!(has_signature(&good, 0xb16b_00b5));
    assert!(!has_signature(&good, 0xdead_beef));
    assert!(!has_signature(&vec![0xb5, 0x00], 0xb16b_00b5));
}

#[test]
fn screen_prints_and_advances() {
    let mut p = Printer::new();
    p.prints("Hi");
    assert_eq!(p.cells[0], b'H');
    assert_eq!(p.cells[1], 0x07);
    assert_eq!(p.cells[2], b'i');
    assert_eq!(p.x, 2);
    assert_eq!(p.y, 0);
    p.printc('\n');
    assert_eq!((p.x, p.y), (0, 1));
}

#[test]
fn screen_wraps_at_row_end() {
    let mut p = Printer::new();
    p.x = 79;
    p.y = 3;
    p.printc('z');
    assert_eq!(p.cells[2 * (3 * 80 + 79)], b'z');
    assert_eq!((p.x, p.y), (0, 4));
}

#[test]
fn screen_scrolls_from_last_row() {
    let mut p = Printer::new();
    p.prints("top");
    p.x = 0;
    p.y = 24;
    p.printc('\n');
    // the first row took the second row's (blank) contents
    assert_eq!(p.cells[0], 0);
    assert_eq!((p.x, p.y), (0, 24));
    // the freed bottom row is blank spaces in the current colours
    assert_eq!(p.cells[2 * (24 * 80)], b' ');
    assert_eq!(p.cells[2 * (24 * 80) + 1], 0x07);
}

#[test]
fn screen_scroll_moves_rows_up() {
    let mut p = Printer::new();
    p.y = 1;
    p.prints("row1");
    p.scroll();
    assert_eq!(p.cells[0], b'r');
    assert_eq!(p.cells[2], b'o');
    assert_eq!(p.cells[4], b'w');
    assert_eq!(p.cells[6], b'1');
}

#[test]
fn screen_colors_and_clear() {
    let mut p = Printer::new();
    p.set_colors(0xc, 0x1);
    p.printc('A');
    assert_eq!(p.cells[1], 0x1c);
    p.clear();
    assert_eq!((p.x, p.y), (0, 0));
    assert_eq!(p.cells[0], b' ');
    assert_eq!(p.cells[1], 0x1c);
    p.reset_colors();
    p.printc('B');
    assert_eq!(p.cells[1], 0x07);
}

#[test]
fn screen_delete_steps_back() {
    let mut p = Printer::new();
    p.prints("ab");
    p.delete();
    assert_eq!((p.x, p.y), (1, 0));
    assert_eq!(p.cells[2], b' ');
    // at the top-left corner nothing changes
    let mut home = Printer::new();
    home.delete();
    assert_eq!((home.x, home.y), (0, 0));
    // at a row start the cursor returns to the previous row's end
    let mut wrapped = Printer::new();
    wrapped.y = 2;
    wrapped.delete();
    assert_eq!((wrapped.x, wrapped.y), (79, 1));
}

#[test]
fn idt_gate_splits_handler_address() {
    let mut t = InterruptDescriptorTable::new();
    t.add(0x21, 0xdeadbeef);
    assert_eq!(t.entries[0x21].offset_low, 0xbeef);
    assert_eq!(t.entries[0x21].offset_high, 0xdead);
    assert_eq!(t.entries[0x21].segment_selector, 8);
    assert_eq!(t.entries[0x21].flags, 0x8e);
    assert_eq!(t.entries[0x20].offset_low, 0);
}

#[test]
fn idt_init_points_every_vector() {
    let mut t = InterruptDescriptorTable::new();
    t.init(0x0001_0000);
    assert_eq!(t.entries[0].offset_high, 1);
    assert_eq!(t.entries[255].offset_high, 1);
    assert_eq!(t.entries[255].offset_low, 0);
}

#[test]
fn idt_exception_handlers_skip_reserved_vector() {
    let mut t = InterruptDescriptorTable::new();
    let handlers: Vec<u32> = (1..=21).map(|i| i as u32 * 0x100).collect();
    t.add_exceptions(&handlers);
    assert_eq!(t.entries[0x00].offset_low, 0x100);
    assert_eq!(t.entries[0x0e].offset_low, 0xf00);
    // vector 15 is reserved and untouched
    assert_eq!(t.entries[0x0f].offset_low, 0);
    assert_eq!(t.entries[0x10].offset_low, 0x1000);
    assert_eq!(t.entries[0x15].offset_low, 0x1500);
    assert_eq!(t.entries[0x16].offset_low, 0);
}

#[test]
fn idt_descriptor_covers_whole_table() {
    let t = InterruptDescriptorTable::new();
    let d = t.descriptor(0xcafe);
    assert_eq!(d.size, 256 * 8 - 1);
    assert_eq!(d.offset, 0xcafe);
}

#[test]
fn gdt_flat_model_descriptors() {
    let t = GlobalDescriptorTable::flat();
    assert_eq!(t.entries.len(), 3);
    assert_eq!(t.entries[0].entry, 0);
    assert_eq!(t.entries[1].entry, 0x00cf_9a00_0000_ffff);
    assert_eq!(t.entries[2].entry, 0x00cf_9200_0000_ffff);
    let d = t.descriptor(0x800);
    assert_eq!(d.size, 23);
    assert_eq!(d.offset, 0x800);
}

#[test]
fn exception_vectors_are_named() {
    assert_eq!(exception_message(0x00), "DIVISION ERROR!");
    assert_eq!(exception_message(0x0d), "GENERAL PROTECTION!");
    assert_eq!(exception_message(0x0e), "PAGE FAULT!");
    assert_eq!(exception_message(0x15), "CONTROL PROTECTION EXCEPTION!");
    assert_eq!(exception_message(0xff), "EXCEPTION!");
    // vector 15 is reserved: it only gets the generic message
    assert_eq!(exception_message(0x0f), "EXCEPTION!");
}
