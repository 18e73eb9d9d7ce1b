use vstd::prelude::*;

verus! {

/// Size of the boot stack, in bytes.
pub const STACK_SIZE: usize = 4096;

/// The stack the kernel boots on, one page.
pub struct Stack([u8; 4096]);

/// Magic number of a multiboot header.
pub const MULTIBOOT_MAGIC: u32 = 0x1BADB002;
/// Multiboot flags: modules aligned on pages, memory map wanted.
pub const MULTIBOOT_FLAGS: u32 = 0x3;
/// Multiboot checksum, the negation of magic plus flags.
pub const MULTIBOOT_CHECKSUM: u32 = 0xE4524FFB;

/// The three words of the multiboot header sum to zero modulo 2^32, as a
/// boot loader checks.
pub proof fn lemma_multiboot_checksum()
    ensures
        (MULTIBOOT_MAGIC + MULTIBOOT_FLAGS + MULTIBOOT_CHECKSUM) % 0x1_0000_0000 == 0,
{
}

} // verus!
