//! Starting the control plane on a device: which device is acceptable, which
//! build of the native library fits it, and how a command is shown.

use crate::packages::strings_view;
use crate::text::{append_str, chars_of, same_chars, string_of, trim, trimmed};
use vstd::prelude::*;

verus! {

/// Where the control plane is put on the device.
pub fn device_dir() -> (dir: String)
    ensures
        dir@ == "/data/local/tests/coordinator"@,
{
    string_of(&chars_of("/data/local/tests/coordinator"))
}

/// The port on which the control plane listens on the device.
pub const DEVICE_PORT: u16 = 21632;

/// A build of the native library.
#[derive(Clone, Copy, Debug, PartialEq, Eq, Structural)]
pub enum NativeLibrary {
    X86_64,
    Aarch64,
}

/// The value of a device property as `getprop` printed it: its output without
/// white space around it.
pub fn property_value(output: &str) -> (value: String)
    ensures
        value@ == trimmed(output@),
{
    let v = trim(&chars_of(output));
    string_of(&v)
}

/// Whether a device is a virtual one, going by its two properties that say
/// so: either of them is `1`.
pub fn is_virtual_device(virtual_device: &str, qemu: &str) -> (r: bool)
    ensures
        r == (virtual_device@ == "1"@ || qemu@ == "1"@),
{
    let one = chars_of("1");
    same_chars(&chars_of(virtual_device), &one) || same_chars(&chars_of(qemu), &one)
}

/// The architecture of a device with the ABI `abi`.
///
/// Fails, with a message that names the ABI, for every ABI but `x86_64` and
/// `arm64-v8a`.
pub fn device_arch(abi: &str) -> (r: Result<String, String>)
    ensures
        abi@ == "x86_64"@ ==> r is Ok && r->Ok_0@ == "x86_64"@,
        abi@ != "x86_64"@ && abi@ == "arm64-v8a"@ ==> r is Ok && r->Ok_0@ == "aarch64"@,
        abi@ != "x86_64"@ && abi@ != "arm64-v8a"@ ==> r is Err && r->Err_0@
            == "unsupported device ABI: "@ + abi@,
{
    let a = chars_of(abi);
    if same_chars(&a, &chars_of("x86_64")) {
        Ok(string_of(&chars_of("x86_64")))
    } else if same_chars(&a, &chars_of("arm64-v8a")) {
        Ok(string_of(&chars_of("aarch64")))
    } else {
        let mut message: Vec<char> = Vec::new();
        append_str(&mut message, "unsupported device ABI: ");
        append_str(&mut message, abi);
        assert(message@ =~= "unsupported device ABI: "@ + abi@);
        Err(string_of(&message))
    }
}

/// The build of the native library for the architecture `arch`.
///
/// Fails, with a message that names the architecture, for every architecture
/// but `x86_64` and `aarch64`.
pub fn select_so(arch: &str) -> (r: Result<NativeLibrary, String>)
    ensures
        arch@ == "x86_64"@ ==> r == Ok::<NativeLibrary, String>(NativeLibrary::X86_64),
        arch@ != "x86_64"@ && arch@ == "aarch64"@ ==> r == Ok::<NativeLibrary, String>(
            NativeLibrary::Aarch64,
        ),
        arch@ != "x86_64"@ && arch@ != "aarch64"@ ==> r is Err && r->Err_0@
            == "unsupported arch: "@ + arch@,
{
    let a = chars_of(arch);
    if same_chars(&a, &chars_of("x86_64")) {
        Ok(NativeLibrary::X86_64)
    } else if same_chars(&a, &chars_of("aarch64")) {
        Ok(NativeLibrary::Aarch64)
    } else {
        let mut message: Vec<char> = Vec::new();
        append_str(&mut message, "unsupported arch: ");
        append_str(&mut message, arch);
        assert(message@ =~= "unsupported arch: "@ + arch@);
        Err(string_of(&message))
    }
}

/// The first `k` arguments, each with a space in front.
pub open spec fn spaced(args: Seq<Seq<char>>, k: int) -> Seq<char>
    decreases k,
{
    if k <= 0 {
        Seq::empty()
    } else {
        spaced(args, k - 1) + " "@ + args[k - 1]
    }
}

/// A command as it is shown: the command, then each argument after a space.
pub fn format_command(cmd: &str, args: &Vec<String>) -> (out: String)
    ensures
        out@ == cmd@ + spaced(strings_view(args@), args@.len() as int),
{
    let ghost all = strings_view(args@);
    let mut buf: Vec<char> = Vec::new();
    append_str(&mut buf, cmd);
    assert(buf@ =~= cmd@ + spaced(all, 0));
    let mut i: usize = 0;
    while i < args.len()
        invariant
            i <= args.len(),
            all == strings_view(args@),
            buf@ == cmd@ + spaced(all, i as int),
        decreases args.len() - i,
    {
        assert(all[i as int] == args@[i as int]@);
        append_str(&mut buf, " ");
        append_str(&mut buf, args[i].as_str());
        assert(buf@ =~= cmd@ + spaced(all, i + 1));
        i += 1;
    }
    string_of(&buf)
}

} // verus!
