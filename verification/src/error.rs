//! Daemon-wide error type, its wire classification and its text.

use crate::text::{self, push_int};
use vstd::prelude::*;

verus! {

/// Daemon error. Failures of the libraries the daemon stands on carry the
/// text those libraries describe them with.
#[derive(Debug)]
pub enum Error {
    Internal(String),
    Db(String),
    Io(String),
    Decode(String),
    Json(String),
    Join(String),
    Lua(String),
    /// The request envelope carried nothing.
    UnexpectedPayload(String),
    InvalidArgument(String),
    FailedPrecondition(String),
    NoDisplayRegistered,
    WallpaperNotFound(String),
    RendererNotFound(String),
    NoRendererForType(String),
    RendererTypeMismatch { renderer: String, ty: String },
    RendererSpawnFailed(String),
    RendererControlFailed(String),
    SourcePluginNotFound(String),
    SourceExtrasFailed { plugin: String, message: String },
    SettingsValidationFailed(String),
    SettingsApplyFailed(String),
    LibraryNotFound(i64),
    PlaylistNotFound(String),
    PlaylistInvalid(String),
    /// A diagnostic message around another error.
    WithContext { context: String, source: Box<Error> },
}

/// Wire-level error class.
#[derive(Debug, Clone, Copy, PartialEq, Eq, Structural)]
pub enum ErrorCode {
    Success,
    Internal,
    Db,
    Decode,
    UnexpectedPayload,
    InvalidArgument,
    FailedPrecondition,
    NoDisplayRegistered,
    WallpaperNotFound,
    RendererNotFound,
    NoRendererForType,
    RendererTypeMismatch,
    RendererSpawnFailed,
    RendererControlFailed,
    SourcePluginNotFound,
    SourceExtrasFailed,
    SettingsValidationFailed,
    SettingsApplyFailed,
    LibraryNotFound,
    PlaylistNotFound,
    PlaylistInvalid,
}

/// Coarse status for clients that do not read [`ErrorCode`].
#[derive(Debug, Clone, Copy, PartialEq, Eq, Structural)]
pub enum Status {
    Success,
    InvalidArgument,
    FailedPrecondition,
    NotFound,
    Internal,
}

/// Error vocabulary of the message bus.
#[derive(Debug)]
pub enum BusError {
    FileNotFound(String),
    InvalidArgs(String),
    Failed(String),
}

/// Reply to one request.
#[derive(Debug)]
pub struct Response<P> {
    pub request_id: u64,
    pub status: Status,
    pub error_code: ErrorCode,
    pub message: String,
    pub payload: Option<P>,
}

impl Error {
    pub open spec fn code(self) -> ErrorCode
        decreases self,
    {
        match self {
            Error::WithContext { source, .. } => source.code(),
            Error::Internal(_) | Error::Io(_) | Error::Json(_) | Error::Join(_) | Error::Lua(
                _,
            ) => ErrorCode::Internal,
            Error::Db(_) => ErrorCode::Db,
            Error::Decode(_) => ErrorCode::Decode,
            Error::UnexpectedPayload(_) => ErrorCode::UnexpectedPayload,
            Error::InvalidArgument(_) => ErrorCode::InvalidArgument,
            Error::FailedPrecondition(_) => ErrorCode::FailedPrecondition,
            Error::NoDisplayRegistered => ErrorCode::NoDisplayRegistered,
            Error::WallpaperNotFound(_) => ErrorCode::WallpaperNotFound,
            Error::RendererNotFound(_) => ErrorCode::RendererNotFound,
            Error::NoRendererForType(_) => ErrorCode::NoRendererForType,
            Error::RendererTypeMismatch { .. } => ErrorCode::RendererTypeMismatch,
            Error::RendererSpawnFailed(_) => ErrorCode::RendererSpawnFailed,
            Error::RendererControlFailed(_) => ErrorCode::RendererControlFailed,
            Error::SourcePluginNotFound(_) => ErrorCode::SourcePluginNotFound,
            Error::SourceExtrasFailed { .. } => ErrorCode::SourceExtrasFailed,
            Error::SettingsValidationFailed(_) => ErrorCode::SettingsValidationFailed,
            Error::SettingsApplyFailed(_) => ErrorCode::SettingsApplyFailed,
            Error::LibraryNotFound(_) => ErrorCode::LibraryNotFound,
            Error::PlaylistNotFound(_) => ErrorCode::PlaylistNotFound,
            Error::PlaylistInvalid(_) => ErrorCode::PlaylistInvalid,
        }
    }

    /// What the error says.
    pub open spec fn says(self) -> Seq<char>
        decreases self,
    {
        match self {
            Error::WithContext { context, source } => context@ + ": "@ + source.says(),
            Error::Internal(m) => m@,
            Error::Db(m) => "db: "@ + m@,
            Error::Io(m) => "io: "@ + m@,
            Error::Decode(m) => "decode: "@ + m@,
            Error::Json(m) => "json: "@ + m@,
            Error::Join(m) => "task join: "@ + m@,
            Error::Lua(m) => "lua: "@ + m@,
            Error::UnexpectedPayload(m) => m@,
            Error::InvalidArgument(m) => m@,
            Error::FailedPrecondition(m) => m@,
            Error::NoDisplayRegistered => "no display registered"@,
            Error::WallpaperNotFound(m) => "wallpaper '"@ + m@ + "' not found"@,
            Error::RendererNotFound(m) => "unknown renderer '"@ + m@ + "'"@,
            Error::NoRendererForType(m) => "no renderer for wallpaper type '"@ + m@ + "'"@,
            Error::RendererTypeMismatch { renderer, ty } => "renderer '"@ + renderer@
                + "' does not support wallpaper type '"@ + ty@ + "'"@,
            Error::RendererSpawnFailed(m) => "spawn failed: "@ + m@,
            Error::RendererControlFailed(m) => "renderer control failed: "@ + m@,
            Error::SourcePluginNotFound(m) => "source plugin '"@ + m@ + "' not found"@,
            Error::SourceExtrasFailed { plugin, message } => "source_plugin '"@ + plugin@
                + "'.extras() failed: "@ + message@,
            Error::SettingsValidationFailed(m) => "settings validation failed: "@ + m@,
            Error::SettingsApplyFailed(m) => "settings persisted but live hot-reload failed: "@
                + m@,
            Error::LibraryNotFound(id) => "library "@ + text::int_text(id as int) + " not found"@,
            Error::PlaylistNotFound(m) => "playlist not found: "@ + m@,
            Error::PlaylistInvalid(m) => "playlist invalid: "@ + m@,
        }
    }

    /// Wraps the error in a diagnostic message; its class stays the same.
    pub fn context(self, ctx: String) -> (r: Self)
        ensures
            r == (Error::WithContext { context: ctx, source: Box::new(self) }),
            r.code() == self.code(),
            r.says() == ctx@ + ": "@ + self.says(),
    {
        Error::WithContext { context: ctx, source: Box::new(self) }
    }

    /// Wire-level class of the error, never `Success`.
    pub fn error_code(&self) -> (r: ErrorCode)
        ensures
            r == self.code(),
            r != ErrorCode::Success,
        decreases self,
    {
        match self {
            Error::WithContext { source, .. } => source.error_code(),
            Error::Internal(_) => ErrorCode::Internal,
            Error::Io(_) => ErrorCode::Internal,
            Error::Json(_) => ErrorCode::Internal,
            Error::Join(_) => ErrorCode::Internal,
            Error::Lua(_) => ErrorCode::Internal,
            Error::Db(_) => ErrorCode::Db,
            Error::Decode(_) => ErrorCode::Decode,
            Error::UnexpectedPayload(_) => ErrorCode::UnexpectedPayload,
            Error::InvalidArgument(_) => ErrorCode::InvalidArgument,
            Error::FailedPrecondition(_) => ErrorCode::FailedPrecondition,
            Error::NoDisplayRegistered => ErrorCode::NoDisplayRegistered,
            Error::WallpaperNotFound(_) => ErrorCode::WallpaperNotFound,
            Error::RendererNotFound(_) => ErrorCode::RendererNotFound,
            Error::NoRendererForType(_) => ErrorCode::NoRendererForType,
            Error::RendererTypeMismatch { .. } => ErrorCode::RendererTypeMismatch,
            Error::RendererSpawnFailed(_) => ErrorCode::RendererSpawnFailed,
            Error::RendererControlFailed(_) => ErrorCode::RendererControlFailed,
            Error::SourcePluginNotFound(_) => ErrorCode::SourcePluginNotFound,
            Error::SourceExtrasFailed { .. } => ErrorCode::SourceExtrasFailed,
            Error::SettingsValidationFailed(_) => ErrorCode::SettingsValidationFailed,
            Error::SettingsApplyFailed(_) => ErrorCode::SettingsApplyFailed,
            Error::LibraryNotFound(_) => ErrorCode::LibraryNotFound,
            Error::PlaylistNotFound(_) => ErrorCode::PlaylistNotFound,
            Error::PlaylistInvalid(_) => ErrorCode::PlaylistInvalid,
        }
    }

    /// Coarse status of the error.
    pub fn status(&self) -> (r: Status)
        ensures
            r == status_of(self.code()),
            r != Status::Success,
    {
        code_status(self.error_code())
    }

    /// Text of the error, outermost context first.
    pub fn message(&self) -> (s: String)
        ensures
            s@ == self.says(),
        decreases self,
    {
        match self {
            Error::WithContext { context, source } => {
                let inner = source.message();
                joined(context.as_str(), ": ", inner.as_str())
            },
            Error::Internal(m) => m.clone(),
            Error::Db(m) => prefixed("db: ", m),
            Error::Io(m) => prefixed("io: ", m),
            Error::Decode(m) => prefixed("decode: ", m),
            Error::Json(m) => prefixed("json: ", m),
            Error::Join(m) => prefixed("task join: ", m),
            Error::Lua(m) => prefixed("lua: ", m),
            Error::UnexpectedPayload(m) => m.clone(),
            Error::InvalidArgument(m) => m.clone(),
            Error::FailedPrecondition(m) => m.clone(),
            Error::NoDisplayRegistered => "no display registered".to_owned(),
            Error::WallpaperNotFound(m) => joined("wallpaper '", m.as_str(), "' not found"),
            Error::RendererNotFound(m) => joined("unknown renderer '", m.as_str(), "'"),
            Error::NoRendererForType(m) => joined(
                "no renderer for wallpaper type '",
                m.as_str(),
                "'",
            ),
            Error::RendererTypeMismatch { renderer, ty } => {
                let mut s = "renderer '".to_owned();
                s.append(renderer.as_str());
                s.append("' does not support wallpaper type '");
                s.append(ty.as_str());
                s.append("'");
                s
            },
            Error::RendererSpawnFailed(m) => prefixed("spawn failed: ", m),
            Error::RendererControlFailed(m) => prefixed("renderer control failed: ", m),
            Error::SourcePluginNotFound(m) => joined(
                "source plugin '",
                m.as_str(),
                "' not found",
            ),
            Error::SourceExtrasFailed { plugin, message } => {
                let mut s = "source_plugin '".to_owned();
                s.append(plugin.as_str());
                s.append("'.extras() failed: ");
                s.append(message.as_str());
                s
            },
            Error::SettingsValidationFailed(m) => prefixed("settings validation failed: ", m),
            Error::SettingsApplyFailed(m) => prefixed(
                "settings persisted but live hot-reload failed: ",
                m,
            ),
            Error::LibraryNotFound(id) => {
                let mut s = "library ".to_owned();
                push_int(&mut s, *id);
                s.append(" not found");
                s
            },
            Error::PlaylistNotFound(m) => prefixed("playlist not found: ", m),
            Error::PlaylistInvalid(m) => prefixed("playlist invalid: ", m),
        }
    }

    /// Reply for a request that failed.
    pub fn to_response<P>(&self, request_id: u64) -> (r: Response<P>)
        ensures
            r.request_id == request_id,
            r.status == status_of(self.code()),
            r.error_code == self.code(),
            r.message@ == self.says(),
            r.payload is None,
    {
        Response {
            request_id,
            status: self.status(),
            error_code: self.error_code(),
            message: self.message(),
            payload: None,
        }
    }

    /// The error as the message bus reports it.
    pub fn to_bus(&self) -> (r: BusError)
        ensures
            match bus_class(self.code()) {
                BusClass::NotFound => r is FileNotFound && r->FileNotFound_0@ == self.says(),
                BusClass::InvalidArgs => r is InvalidArgs && r->InvalidArgs_0@ == self.says(),
                BusClass::Failed => r is Failed && r->Failed_0@ == self.says(),
            },
    {
        let msg = self.message();
        match self.error_code() {
            ErrorCode::WallpaperNotFound => BusError::FileNotFound(msg),
            ErrorCode::RendererNotFound => BusError::FileNotFound(msg),
            ErrorCode::SourcePluginNotFound => BusError::FileNotFound(msg),
            ErrorCode::LibraryNotFound => BusError::FileNotFound(msg),
            ErrorCode::PlaylistNotFound => BusError::FileNotFound(msg),
            ErrorCode::InvalidArgument => BusError::InvalidArgs(msg),
            ErrorCode::UnexpectedPayload => BusError::InvalidArgs(msg),
            ErrorCode::Decode => BusError::InvalidArgs(msg),
            ErrorCode::RendererTypeMismatch => BusError::InvalidArgs(msg),
            ErrorCode::NoRendererForType => BusError::InvalidArgs(msg),
            ErrorCode::SettingsValidationFailed => BusError::InvalidArgs(msg),
            ErrorCode::PlaylistInvalid => BusError::InvalidArgs(msg),
            _ => BusError::Failed(msg),
        }
    }
}

pub open spec fn status_of(c: ErrorCode) -> Status {
    match c {
        ErrorCode::Success => Status::Success,
        ErrorCode::Decode
        | ErrorCode::InvalidArgument
        | ErrorCode::UnexpectedPayload
        | ErrorCode::RendererTypeMismatch
        | ErrorCode::NoRendererForType
        | ErrorCode::SettingsValidationFailed
        | ErrorCode::PlaylistInvalid => Status::InvalidArgument,
        ErrorCode::FailedPrecondition | ErrorCode::NoDisplayRegistered => Status::FailedPrecondition,
        ErrorCode::WallpaperNotFound
        | ErrorCode::RendererNotFound
        | ErrorCode::SourcePluginNotFound
        | ErrorCode::LibraryNotFound
        | ErrorCode::PlaylistNotFound => Status::NotFound,
        ErrorCode::Internal
        | ErrorCode::Db
        | ErrorCode::RendererSpawnFailed
        | ErrorCode::RendererControlFailed
        | ErrorCode::SourceExtrasFailed
        | ErrorCode::SettingsApplyFailed => Status::Internal,
    }
}

fn code_status(c: ErrorCode) -> (r: Status)
    ensures
        r == status_of(c),
{
    match c {
        ErrorCode::Success => Status::Success,
        ErrorCode::Decode => Status::InvalidArgument,
        ErrorCode::InvalidArgument => Status::InvalidArgument,
        ErrorCode::UnexpectedPayload => Status::InvalidArgument,
        ErrorCode::RendererTypeMismatch => Status::InvalidArgument,
        ErrorCode::NoRendererForType => Status::InvalidArgument,
        ErrorCode::SettingsValidationFailed => Status::InvalidArgument,
        ErrorCode::PlaylistInvalid => Status::InvalidArgument,
        ErrorCode::FailedPrecondition => Status::FailedPrecondition,
        ErrorCode::NoDisplayRegistered => Status::FailedPrecondition,
        ErrorCode::WallpaperNotFound => Status::NotFound,
        ErrorCode::RendererNotFound => Status::NotFound,
        ErrorCode::SourcePluginNotFound => Status::NotFound,
        ErrorCode::LibraryNotFound => Status::NotFound,
        ErrorCode::PlaylistNotFound => Status::NotFound,
        ErrorCode::Internal => Status::Internal,
        ErrorCode::Db => Status::Internal,
        ErrorCode::RendererSpawnFailed => Status::Internal,
        ErrorCode::RendererControlFailed => Status::Internal,
        ErrorCode::SourceExtrasFailed => Status::Internal,
        ErrorCode::SettingsApplyFailed => Status::Internal,
    }
}

pub enum BusClass {
    NotFound,
    InvalidArgs,
    Failed,
}

/// The bus has a name of its own for what is missing and for what is
/// malformed; everything else is a plain failure.
pub open spec fn bus_class(c: ErrorCode) -> BusClass {
    match status_of(c) {
        Status::NotFound => BusClass::NotFound,
        Status::InvalidArgument => BusClass::InvalidArgs,
        _ => BusClass::Failed,
    }
}

fn joined(a: &str, b: &str, c: &str) -> (s: String)
    ensures
        s@ == a@ + b@ + c@,
{
    let mut s = a.to_owned();
    s.append(b);
    s.append(c);
    s
}

fn prefixed(a: &str, m: &String) -> (s: String)
    ensures
        s@ == a@ + m@,
{
    let mut s = a.to_owned();
    s.append(m.as_str());
    s
}

/// Reply for a request that succeeded.
pub fn ok_response<P>(request_id: u64, payload: P) -> (r: Response<P>)
    ensures
        r.request_id == request_id,
        r.status == Status::Success,
        r.error_code == ErrorCode::Success,
        r.message@ == Seq::<char>::empty(),
        r.payload == Some(payload),
{
    Response {
        request_id,
        status: Status::Success,
        error_code: ErrorCode::Success,
        message: String::new(),
        payload: Some(payload),
    }
}

/// Reply for the outcome of one request.
pub fn build_response<P>(request_id: u64, result: Result<P, Error>) -> (r: Response<P>)
    ensures
        r.request_id == request_id,
        match result {
            Ok(p) => r.status == Status::Success && r.error_code == ErrorCode::Success && r.message@
                == Seq::<char>::empty() && r.payload == Some(p),
            Err(e) => r.status == status_of(e.code()) && r.error_code == e.code() && r.message@
                == e.says() && r.payload is None,
        },
{
    match result {
        Ok(payload) => ok_response(request_id, payload),
        Err(e) => e.to_response(request_id),
    }
}

/// Adds a diagnostic message to the error of a result; a success is kept.
pub fn with_context<T>(result: Result<T, Error>, ctx: String) -> (r: Result<T, Error>)
    ensures
        match result {
            Ok(v) => r == Ok::<T, Error>(v),
            Err(e) => r == Err::<T, Error>(
                Error::WithContext { context: ctx, source: Box::new(e) },
            ),
        },
{
    match result {
        Ok(v) => Ok(v),
        Err(e) => Err(e.context(ctx)),
    }
}

/// Wrapping an error any number of times keeps its class, its status and its
/// bus class.
pub proof fn context_keeps_the_class(e: Error, contexts: Seq<String>)
    ensures
        wrapped(e, contexts).code() == e.code(),
        status_of(wrapped(e, contexts).code()) == status_of(e.code()),
        bus_class(wrapped(e, contexts).code()) == bus_class(e.code()),
    decreases contexts.len(),
{
    if contexts.len() > 0 {
        context_keeps_the_class(e, contexts.drop_last());
    }
}

/// `e` with each of `contexts` put around it, the last one outermost.
pub open spec fn wrapped(e: Error, contexts: Seq<String>) -> Error
    decreases contexts.len(),
{
    if contexts.len() == 0 {
        e
    } else {
        Error::WithContext {
            context: contexts.last(),
            source: Box::new(wrapped(e, contexts.drop_last())),
        }
    }
}

/// A failed request is never answered with the success status, and its reply
/// always has a class other than `Success`.
pub proof fn failure_never_reads_as_success(e: Error)
    ensures
        e.code() != ErrorCode::Success,
        status_of(e.code()) != Status::Success,
    decreases e,
{
    if let Error::WithContext { source, .. } = e {
        failure_never_reads_as_success(*source);
    }
}

/// A request that succeeds is answered with its payload and no message; one
/// that fails, with the message and the code of its error and no payload. The
/// answer carries the number of the request.
pub proof fn answer_tells_what_came_of_it<P>(
    request_id: u64,
    result: Result<P, Error>,
    r: Response<P>,
    code: ErrorCode,
    message: String,
    status: Status,
)
    requires
        call_ensures(build_response::<P>, (request_id, result), r),
        result matches Err(e) ==> call_ensures(Error::error_code, (&e,), code) && call_ensures(
            Error::message,
            (&e,),
            message,
        ) && call_ensures(Error::status, (&e,), status),
    ensures
        r.request_id == request_id,
        result matches Ok(p) ==> r.payload == Some(p) && r.message@.len() == 0 && r.error_code
            == ErrorCode::Success && r.status == Status::Success,
        result is Err ==> r.payload is None && r.error_code == code && r.message@ == message@
            && r.status == status && status != Status::Success,
{
    if let Err(e) = result {
        failure_never_reads_as_success(e);
    }
}

/// What is missing is told apart from what is malformed, and from what only
/// failed, on the bus as in answers.
pub proof fn bus_tells_missing_from_malformed(e: Error, b: BusError, status: Status, message: String)
    requires
        call_ensures(Error::to_bus, (&e,), b),
        call_ensures(Error::status, (&e,), status),
        call_ensures(Error::message, (&e,), message),
    ensures
        b is FileNotFound <==> status == Status::NotFound,
        b is InvalidArgs <==> status == Status::InvalidArgument,
        match b {
            BusError::FileNotFound(m) => m@ == message@,
            BusError::InvalidArgs(m) => m@ == message@,
            BusError::Failed(m) => m@ == message@,
        },
{
}

/// Something named that is not there is missing; something said wrong is
/// malformed; something said too early fails on its precondition. The rest is
/// the daemon's own.
pub proof fn errors_have_their_status(e: Error, code: ErrorCode, status: Status)
    requires
        call_ensures(Error::error_code, (&e,), code),
        call_ensures(Error::status, (&e,), status),
        !(e is WithContext),
    ensures
        status == Status::NotFound <==> e is WallpaperNotFound || e is RendererNotFound
            || e is SourcePluginNotFound || e is LibraryNotFound || e is PlaylistNotFound,
        status == Status::FailedPrecondition <==> e is FailedPrecondition || e
            is NoDisplayRegistered,
        status == Status::InvalidArgument <==> e is Decode || e is InvalidArgument || e
            is UnexpectedPayload || e is RendererTypeMismatch || e is NoRendererForType || e
            is SettingsValidationFailed || e is PlaylistInvalid,
        status == Status::Internal <==> e is Internal || e is Io || e is Json || e is Join || e is Lua
            || e is Db || e is RendererSpawnFailed || e is RendererControlFailed || e
            is SourceExtrasFailed || e is SettingsApplyFailed,
        code == ErrorCode::Db <==> e is Db,
        code == ErrorCode::Decode <==> e is Decode,
        code == ErrorCode::UnexpectedPayload <==> e is UnexpectedPayload,
        code == ErrorCode::InvalidArgument <==> e is InvalidArgument,
        code == ErrorCode::FailedPrecondition <==> e is FailedPrecondition,
        code == ErrorCode::NoDisplayRegistered <==> e is NoDisplayRegistered,
        code == ErrorCode::WallpaperNotFound <==> e is WallpaperNotFound,
        code == ErrorCode::RendererNotFound <==> e is RendererNotFound,
        code == ErrorCode::NoRendererForType <==> e is NoRendererForType,
        code == ErrorCode::RendererTypeMismatch <==> e is RendererTypeMismatch,
        code == ErrorCode::RendererSpawnFailed <==> e is RendererSpawnFailed,
        code == ErrorCode::RendererControlFailed <==> e is RendererControlFailed,
        code == ErrorCode::SourcePluginNotFound <==> e is SourcePluginNotFound,
        code == ErrorCode::SourceExtrasFailed <==> e is SourceExtrasFailed,
        code == ErrorCode::SettingsValidationFailed <==> e is SettingsValidationFailed,
        code == ErrorCode::SettingsApplyFailed <==> e is SettingsApplyFailed,
        code == ErrorCode::LibraryNotFound <==> e is LibraryNotFound,
        code == ErrorCode::PlaylistNotFound <==> e is PlaylistNotFound,
        code == ErrorCode::PlaylistInvalid <==> e is PlaylistInvalid,
{
}

/// A context goes before what the error says, and changes neither its code nor
/// its status.
pub proof fn context_goes_before_the_message(
    e: Error,
    ctx: String,
    wrapped: Error,
    a: String,
    b: String,
    x: ErrorCode,
    y: ErrorCode,
)
    requires
        call_ensures(Error::context, (e, ctx), wrapped),
        call_ensures(Error::message, (&e,), a),
        call_ensures(Error::message, (&wrapped,), b),
        call_ensures(Error::error_code, (&e,), x),
        call_ensures(Error::error_code, (&wrapped,), y),
    ensures
        b@ == ctx@ + ": "@ + a@,
        x == y,
{
}

} // verus!
