use vstd::prelude::*;

verus! {

/// The message the trap handler prints for each cpu-exception vector.
pub open spec fn spec_exception_message(vector: u32) -> Seq<char> {
    if vector == 0x00 {
        "DIVISION ERROR!"@
    } else if vector == 0x01 {
        "DEBUG EXCEPTION!"@
    } else if vector == 0x02 {
        "NMI INTERRUPT!"@
    } else if vector == 0x03 {
        "BREAKPOINT!"@
    } else if vector == 0x04 {
        "OVERFLOW!"@
    } else if vector == 0x05 {
        "BOUND RANGE EXCEEDED!"@
    } else if vector == 0x06 {
        "INVALID OPCODE (UNDEFINED OPCODE)!"@
    } else if vector == 0x07 {
        "DEVICE NOT AVAILABLE (NO MATH COPROCESSOR)!"@
    } else if vector == 0x08 {
        "DOUBLE FAULT!"@
    } else if vector == 0x09 {
        "COPROCESSOR SEGMENT OVERRUN!"@
    } else if vector == 0x0A {
        "INVALID TSS!"@
    } else if vector == 0x0B {
        "SEGMENT NOT PRESENT!"@
    } else if vector == 0x0C {
        "STACK-SEGMENT FAULT!"@
    } else if vector == 0x0D {
        "GENERAL PROTECTION!"@
    } else if vector == 0x0E {
        "PAGE FAULT!"@
    } else if vector == 0x10 {
        "x87 FPU FLOATING-POINT ERROR (MATH ERROR)!"@
    } else if vector == 0x11 {
        "ALIGNMENT CHECK!"@
    } else if vector == 0x12 {
        "MACHINE CHECK!"@
    } else if vector == 0x13 {
        "SIMD FLOATING-POINT EXCEPTION!"@
    } else if vector == 0x14 {
        "VIRTUALIZATION EXCEPTION!"@
    } else if vector == 0x15 {
        "CONTROL PROTECTION EXCEPTION!"@
    } else {
        "EXCEPTION!"@
    }
}

/// Names the cpu exception behind an interrupt vector; the trap handler
/// prints this before halting.
pub fn exception_message(vector: u32) -> (r: &'static str)
    ensures
        r@ == spec_exception_message(vector),
{
    if vector == 0x00 {
        "DIVISION ERROR!"
    } else if vector == 0x01 {
        "DEBUG EXCEPTION!"
    } else if vector == 0x02 {
        "NMI INTERRUPT!"
    } else if vector == 0x03 {
        "BREAKPOINT!"
    } else if vector == 0x04 {
        "OVERFLOW!"
    } else if vector == 0x05 {
        "BOUND RANGE EXCEEDED!"
    } else if vector == 0x06 {
        "INVALID OPCODE (UNDEFINED OPCODE)!"
    } else if vector == 0x07 {
        "DEVICE NOT AVAILABLE (NO MATH COPROCESSOR)!"
    } else if vector == 0x08 {
        "DOUBLE FAULT!"
    } else if vector == 0x09 {
        "COPROCESSOR SEGMENT OVERRUN!"
    } else if vector == 0x0A {
        "INVALID TSS!"
    } else if vector == 0x0B {
        "SEGMENT NOT PRESENT!"
    } else if vector == 0x0C {
        "STACK-SEGMENT FAULT!"
    } else if vector == 0x0D {
        "GENERAL PROTECTION!"
    } else if vector == 0x0E {
        "PAGE FAULT!"
    } else if vector == 0x10 {
        "x87 FPU FLOATING-POINT ERROR (MATH ERROR)!"
    } else if vector == 0x11 {
        "ALIGNMENT CHECK!"
    } else if vector == 0x12 {
        "MACHINE CHECK!"
    } else if vector == 0x13 {
        "SIMD FLOATING-POINT EXCEPTION!"
    } else if vector == 0x14 {
        "VIRTUALIZATION EXCEPTION!"
    } else if vector == 0x15 {
        "CONTROL PROTECTION EXCEPTION!"
    } else {
        "EXCEPTION!"
    }
}

} // verus!
