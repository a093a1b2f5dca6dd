//! The engine: one compiled module, and one disposable instance of it for
//! every decode call.

use vstd::prelude::*;
use crate::codec::encode_request;
use crate::error::{Error, RunFailure};
use crate::image::J2KImage;
use crate::layout::request_fits;
use crate::request::DecodeImageRequest;
use crate::session::{conclude, verdict, verdict_of};

verus! {

#[verifier::external_type_specification]
#[verifier::external_body]
pub struct ExEngine(wasmtime::Engine);

#[verifier::external_type_specification]
#[verifier::external_body]
#[verifier::reject_recursive_types(T)]
pub struct ExInstancePre<T>(wasmtime::InstancePre<T>);

#[verifier::external_type_specification]
#[verifier::external_body]
pub struct ExWasiCtx(wasi_common::WasiCtx);

/// The in-memory pipe that an instance writes its standard output to: a
/// `WritePipe` of `wasi_common` over a growing buffer. The pipe is shared
/// between this handle and the context of the instance.
#[verifier::external_body]
struct OutputPipe {
    pipe: wasi_common::pipe::WritePipe<std::io::Cursor<Vec<u8>>>,
}

/// The sandbox: the engine and the template from which the instances are
/// made. Neither changes once built, so one sandbox serves any number of
/// calls.
pub struct Jpeg2kSandboxed {
    engine: wasmtime::Engine,
    instance_pre: wasmtime::InstancePre<wasi_common::WasiCtx>,
}

/// The two ends that a call holds of its instance: the context that is
/// handed to the instance, and the pipe that the instance writes to.
struct Session {
    context: wasi_common::WasiCtx,
    output: OutputPipe,
}

impl Jpeg2kSandboxed {
    /// Compiles the decoder module and resolves what it imports, once.
    ///
    /// Fails with an initialization error where the module is malformed or
    /// imports something that the sandbox does not offer.
    pub fn new(module: &[u8]) -> (res: Result<Jpeg2kSandboxed, Error>)
        ensures
            res matches Err(e) ==> e is Initialization,
    {
        Jpeg2kSandboxed::from_build(build_template(module))
    }

    /// What becomes of an attempt to build the sandbox: the sandbox itself
    /// where it was built, and else an initialization error that carries
    /// the reason.
    pub fn from_build(built: Result<Jpeg2kSandboxed, String>) -> (res: Result<
        Jpeg2kSandboxed,
        Error,
    >)
        ensures
            res == match built {
                Ok(sandbox) => Ok::<Jpeg2kSandboxed, Error>(sandbox),
                Err(reason) => Err::<Jpeg2kSandboxed, Error>(Error::Initialization(reason)),
            },
    {
        match built {
            Ok(sandbox) => Ok(sandbox),
            Err(reason) => Err(Error::Initialization(reason)),
        }
    }

    /// Decodes one image in a fresh instance of the module.
    ///
    /// The request is encoded and becomes the standard input of the
    /// instance, and `env` holds the environment variables that the
    /// instance is given, each a name and a value. What the instance writes
    /// to its standard output is taken over once it has run, and
    /// [`conclude`] says what that amounts to. A session that fails earlier
    /// is reported as [`Error::of_run`] says.
    pub fn decode(&self, req: &DecodeImageRequest, env: &[(String, String)]) -> (res: Result<
        J2KImage,
        Error,
    >)
        ensures
            res matches Ok(image) ==> image@.well_formed(),
            !request_fits(req@) ==> res == Err::<J2KImage, Error>(Error::Serialization),
            res matches Err(e) ==> !(e is Initialization),
            (res.is_ok() || res.unwrap_err() is Decode) ==> exists|output: Seq<u8>|
                verdict_of(res) == #[trigger] verdict(output),
    {
        let input = match encode_request(req) {
            Ok(bytes) => bytes,
            Err(e) => { return Err(e); },
        };
        let session = match open_session(input, env) {
            Ok(s) => s,
            Err(reason) => { return Err(Error::of_run(RunFailure::Context(reason))); },
        };
        match run_start(self, session.context) {
            Ok(()) => {},
            Err(failure) => { return Err(Error::of_run(failure)); },
        }
        let output = take_output(session.output);
        let ghost written = output;
        let res = conclude(output);
        proof {
            if written.is_some() {
                assert(verdict_of(res) == verdict(written.unwrap()@));
            }
        }
        res
    }
}

/// Builds the engine and the template: `Engine::default`, a `Linker` with
/// the WASI imports of `wasmtime_wasi::add_to_linker`, `Module::from_binary`
/// on the given bytes and `Linker::instantiate_pre`. Any of the last three
/// may refuse; the reason comes back as text. Nothing is claimed of the
/// result.
#[verifier::external_body]
fn build_template(module: &[u8]) -> (res: Result<Jpeg2kSandboxed, String>) {
    let engine = wasmtime::Engine::default();
    let mut linker = wasmtime::Linker::new(&engine);
    wasmtime_wasi::add_to_linker(&mut linker, |s: &mut wasi_common::WasiCtx| s)
        .map_err(|e| e.to_string())?;
    let module = wasmtime::Module::from_binary(&engine, module).map_err(|e| e.to_string())?;
    let instance_pre = linker.instantiate_pre(&module).map_err(|e| e.to_string())?;
    Ok(Jpeg2kSandboxed { engine, instance_pre })
}

/// Makes the pipes and the context of one call: a `ReadPipe` over the
/// input, an empty in-memory `WritePipe`, and a context of
/// `WasiCtxBuilder` with these as standard input and output and with the
/// given environment variables through `WasiCtxBuilder::envs`, and nothing
/// else. The variables may be refused for their number or size; the reason
/// comes back as text.
#[verifier::external_body]
fn open_session(input: Vec<u8>, env: &[(String, String)]) -> (res: Result<Session, String>) {
    let stdin = wasi_common::pipe::ReadPipe::from(input);
    let output = wasi_common::pipe::WritePipe::new_in_memory();
    let mut builder = wasmtime_wasi::sync::WasiCtxBuilder::new();
    builder.stdin(Box::new(stdin)).stdout(Box::new(output.clone()));
    builder.envs(env).map_err(|e| e.to_string())?;
    Ok(Session { context: builder.build(), output: OutputPipe { pipe: output } })
}

/// Runs one instance to completion: a `Store` of the sandbox's engine over
/// the context, `InstancePre::instantiate` in it, and a call of the
/// module's `_start`. The store, and with it the context and the instance,
/// is dropped before this returns. Says which of the two steps failed: the
/// making of the instance, or looking up `_start` and running it. The
/// store is made from the engine that the template was made from, as
/// `instantiate` asks, since a sandbox is only ever built as a whole.
#[verifier::external_body]
fn run_start(sandbox: &Jpeg2kSandboxed, context: wasi_common::WasiCtx) -> (res: Result<
    (),
    RunFailure,
>) {
    let mut store = wasmtime::Store::new(&sandbox.engine, context);
    let instance = sandbox.instance_pre.instantiate(&mut store).map_err(
        |e| RunFailure::Instantiation(e.to_string()),
    )?;
    let start = instance.get_typed_func::<(), ()>(&mut store, "_start").map_err(
        |e| RunFailure::Trap(e.to_string()),
    )?;
    start.call(&mut store, ()).map_err(|e| RunFailure::Trap(e.to_string()))
}

/// Takes over what was written to the pipe: `WritePipe::try_into_inner`,
/// which gives the buffer only where no other handle of the pipe is left.
#[verifier::external_body]
fn take_output(output: OutputPipe) -> (bytes: Option<Vec<u8>>) {
    output.pipe.try_into_inner().ok().map(|cursor| cursor.into_inner())
}

} // verus!
