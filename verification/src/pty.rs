//! The boundary to the pseudo-terminal crate and to the byte streams of the
//! standard library.
//!
//! Nothing in this file is proved. Each item states what the library takes on
//! trust from code outside it; the session logic is verified against these
//! statements and against nothing else of the outside code.

use vstd::prelude::*;
use portable_pty::CommandBuilder;
use portable_pty::PtyPair;
use portable_pty::PtySize;

verus! {

/// `portable_pty::PtySize`: four public numbers, the size of a terminal in
/// character cells and in pixels.
#[verifier::external_type_specification]
pub struct ExPtySize(PtySize);

/// `portable_pty::PtyPair`: the two ends of a freshly opened pseudo-terminal.
#[verifier::external_type_specification]
#[verifier::external_body]
pub struct ExPtyPair(PtyPair);

/// `portable_pty::CommandBuilder`: a command line that is being put together.
#[verifier::external_type_specification]
#[verifier::external_body]
pub struct ExCommandBuilder(CommandBuilder);

/// `anyhow::Error`, the error of the pseudo-terminal crate's operations.
#[verifier::external_type_specification]
#[verifier::external_body]
pub struct ExAnyhowError(anyhow::Error);

/// `std::io::Error`, the error of reads, writes and signals.
#[verifier::external_type_specification]
#[verifier::external_body]
pub struct ExIoError(std::io::Error);

/// The master end of a pseudo-terminal (`Box<dyn MasterPty + Send>`). Closing
/// it is left to `Drop`.
#[verifier::external_body]
pub struct MasterHandle {
    inner: Box<dyn portable_pty::MasterPty + Send>,
}

/// The stream that feeds the terminal's input side (`Box<dyn Write + Send>`).
#[verifier::external_body]
pub struct WriterHandle {
    inner: Box<dyn std::io::Write + Send>,
}

/// The stream on which the terminal's output arrives (`Box<dyn Read + Send>`).
#[verifier::external_body]
pub struct ReaderHandle {
    inner: Box<dyn std::io::Read + Send>,
}

/// The process that runs inside the terminal
/// (`Box<dyn Child + Send + Sync>`).
#[verifier::external_body]
pub struct ChildHandle {
    inner: Box<dyn portable_pty::Child + Send + Sync>,
}

/// The argument vector that a command builder holds, the program first.
pub uninterp spec fn command_argv(cmd: CommandBuilder) -> Seq<Seq<char>>;

/// The text that `String::from_utf8_lossy` makes of `bytes`.
pub uninterp spec fn lossy_text(bytes: Seq<u8>) -> Seq<char>;

/// `CommandBuilder::new`: a builder whose argument vector holds the program
/// and nothing else. (Its environment is the caller's; nothing is claimed of
/// it.)
#[verifier::external_body]
pub(crate) fn command_new(program: &str) -> (cmd: CommandBuilder)
    ensures
        command_argv(cmd) == seq![program@],
{
    CommandBuilder::new(program)
}

/// `CommandBuilder::arg`: appends one argument. It panics on a builder without
/// a program, which `requires` leaves out.
#[verifier::external_body]
pub(crate) fn command_arg(cmd: &mut CommandBuilder, arg: &str)
    requires
        command_argv(*old(cmd)).len() > 0,
    ensures
        command_argv(*final(cmd)) == command_argv(*old(cmd)).push(arg@),
{
    cmd.arg(arg)
}

/// `native_pty_system` and `PtySystem::openpty`: asks the system for a new
/// pseudo-terminal of the given size. Whether one is granted is the system's
/// decision.
#[verifier::external_body]
pub(crate) fn open_pty(size: PtySize) -> (r: Result<PtyPair, anyhow::Error>)
{
    portable_pty::native_pty_system().openpty(size)
}

/// `SlavePty::spawn_command`: starts the command on the slave end. Whether the
/// process starts is the system's decision.
#[verifier::external_body]
pub(crate) fn spawn_command(pair: &PtyPair, cmd: CommandBuilder) -> (r: Result<
    ChildHandle,
    anyhow::Error,
>)
{
    let child = pair.slave.spawn_command(cmd)?;
    Ok(ChildHandle { inner: child })
}

/// Keeps the master end of the pair; the slave end is dropped, which closes
/// this process's handle on it.
#[verifier::external_body]
pub(crate) fn into_master(pair: PtyPair) -> (master: MasterHandle)
{
    MasterHandle { inner: pair.master }
}

/// `MasterPty::try_clone_reader`: a second handle on the master end, for
/// reading.
#[verifier::external_body]
pub(crate) fn try_clone_reader(master: &MasterHandle) -> (r: Result<ReaderHandle, anyhow::Error>)
{
    let reader = master.inner.try_clone_reader()?;
    Ok(ReaderHandle { inner: reader })
}

/// `MasterPty::take_writer`: the handle for writing; the crate fails the call
/// where it was taken before.
#[verifier::external_body]
pub(crate) fn take_writer(master: &MasterHandle) -> (r: Result<WriterHandle, anyhow::Error>)
{
    let writer = master.inner.take_writer()?;
    Ok(WriterHandle { inner: writer })
}

/// `MasterPty::resize`: tells the kernel the terminal's new size.
#[verifier::external_body]
pub(crate) fn resize_master(master: &MasterHandle, size: PtySize) -> (r: Result<(), anyhow::Error>)
{
    master.inner.resize(size)
}

/// `std::io::Write::write_all` on the terminal's input side.
#[verifier::external_body]
pub(crate) fn write_all(writer: &mut WriterHandle, bytes: &[u8]) -> (r: Result<(), std::io::Error>)
{
    writer.inner.write_all(bytes)
}

/// `ChildKiller::kill`: asks the system to end the process.
#[verifier::external_body]
pub(crate) fn kill_child(child: &mut ChildHandle) -> (r: Result<(), std::io::Error>)
{
    child.inner.kill()
}

/// `std::io::Read::read` into the whole of `buffer`. It waits until output,
/// the end of the stream or an error arrives. The buffer keeps its length, and
/// a count that is returned is no more than that length, as the trait
/// requires of its implementations.
#[verifier::external_body]
pub(crate) fn read_into(reader: &mut ReaderHandle, buffer: &mut Vec<u8>) -> (r: Result<
    usize,
    std::io::Error,
>)
    ensures
        final(buffer)@.len() == old(buffer)@.len(),
        r matches Ok(count) ==> count <= old(buffer)@.len(),
{
    reader.inner.read(buffer.as_mut_slice())
}

/// `String::from_utf8_lossy`: the bytes as text, with the replacement
/// character in place of what is no UTF-8. Bytes that are UTF-8 come out as
/// the text they encode.
#[verifier::external_body]
pub(crate) fn decode_lossy(bytes: &[u8]) -> (text: String)
    ensures
        text@ == lossy_text(bytes@),
        vstd::utf8::valid_utf8(bytes@) ==> text@ == vstd::utf8::decode_utf8(bytes@),
{
    String::from_utf8_lossy(bytes).to_string()
}

} // verus!
