//! The parts of the generated module that are the same for every
//! description.

use vstd::prelude::*;
use crate::template::TemplateLine;

verus! {

/// The head of the module: `$0` is the name of the package.
pub const HEADER: [TemplateLine; 7] = [
    (0, "library $0;"),
    (0, ""),
    (0, "import \"dart:convert\";"),
    (0, "import \"dart:ffi\";"),
    (0, "import \"dart:io\";"),
    (0, "import \"dart:typed_data\";"),
    (0, "import \"package:ffi/ffi.dart\";"),
];

/// The import of the module of another package: `$0` is its name.
pub const IMPORT: [TemplateLine; 1] = [(0, "import \"package:$0/$0.dart\";")];

/// The empty line behind the imports.
pub const IMPORTS_END: [TemplateLine; 1] = [(0, "")];

/// The support code: the buffer and the call status as the library lays
/// them out, and the check of the status that every call site makes. A
/// panic becomes an unrecoverable fault with its message, an error is
/// lifted to the error of the declared type.
pub const RUNTIME: [TemplateLine; 95] = [
    (0, "class UniffiInternalError implements Exception {"),
    (1, "final String message;"),
    (1, ""),
    (1, "const UniffiInternalError.panicked(this.message);"),
    (1, "const UniffiInternalError.unexpectedCall(this.message);"),
    (1, ""),
    (1, "@override"),
    (1, "String toString() => \"UniffiInternalError: $$message\";"),
    (0, "}"),
    (0, ""),
    (0, "const int CALL_SUCCESS = 0;"),
    (0, "const int CALL_ERROR = 1;"),
    (0, "const int CALL_UNEXPECTED_ERROR = 2;"),
    (0, ""),
    (0, "final class RustBuffer extends Struct {"),
    (1, "@Uint64()"),
    (1, "external int capacity;"),
    (1, ""),
    (1, "@Uint64()"),
    (1, "external int len;"),
    (1, ""),
    (1, "external Pointer<Uint8> data;"),
    (1, ""),
    (1, "Uint8List asUint8List() => data.asTypedList(len);"),
    (0, "}"),
    (0, ""),
    (0, "final class RustCallStatus extends Struct {"),
    (1, "@Int8()"),
    (1, "external int code;"),
    (1, ""),
    (1, "external RustBuffer errorBuf;"),
    (0, "}"),
    (0, ""),
    (0, "RustBuffer toRustBuffer(Uint8List bytes) {"),
    (1, "final buffer = calloc<RustBuffer>();"),
    (1, "final data = calloc<Uint8>(bytes.length);"),
    (1, "data.asTypedList(bytes.length).setAll(0, bytes);"),
    (1, "buffer.ref.capacity = bytes.length;"),
    (1, "buffer.ref.len = bytes.length;"),
    (1, "buffer.ref.data = data;"),
    (1, "return buffer.ref;"),
    (0, "}"),
    (0, ""),
    (0, "class LiftRetVal<T> {"),
    (1, "final T value;"),
    (1, "final int bytesRead;"),
    (1, ""),
    (1, "const LiftRetVal(this.value, this.bytesRead);"),
    (0, "}"),
    (0, ""),
    (0, "class UniffiErrorHandler {"),
    (1, "final Object Function(RustBuffer) _lift;"),
    (1, ""),
    (1, "const UniffiErrorHandler(this._lift);"),
    (1, ""),
    (1, "Object lift(RustBuffer errorBuf) => _lift(errorBuf);"),
    (0, "}"),
    (0, ""),
    (0, "T rustCall<T>("),
    (1, "T Function(Pointer<RustCallStatus>) nativeCall,"),
    (1, "UniffiErrorHandler? errorHandler,"),
    (0, ") {"),
    (1, "ensureInitialized();"),
    (1, "final status = calloc<RustCallStatus>();"),
    (1, "try {"),
    (2, "final result = nativeCall(status);"),
    (2, "checkCallStatus(errorHandler, status);"),
    (2, "return result;"),
    (1, "} finally {"),
    (2, "calloc.free(status);"),
    (1, "}"),
    (0, "}"),
    (0, ""),
    (0, "void checkCallStatus("),
    (1, "UniffiErrorHandler? errorHandler,"),
    (1, "Pointer<RustCallStatus> status,"),
    (0, ") {"),
    (1, "if (status.ref.code == CALL_SUCCESS) {"),
    (2, "return;"),
    (1, "}"),
    (1, "if (status.ref.code == CALL_ERROR) {"),
    (2, "if (errorHandler == null) {"),
    (3, "throw UniffiInternalError.unexpectedCall(\"error of a function that declares none\");"),
    (2, "}"),
    (2, "throw errorHandler.lift(status.ref.errorBuf);"),
    (1, "}"),
    (1, "if (status.ref.code == CALL_UNEXPECTED_ERROR) {"),
    (2, "if (status.ref.errorBuf.len > 0) {"),
    (3, "throw UniffiInternalError.panicked(FfiConverterString.lift(status.ref.errorBuf));"),
    (2, "}"),
    (2, "throw UniffiInternalError.panicked(\"Rust panic\");"),
    (1, "}"),
    (1, "throw UniffiInternalError.unexpectedCall(\"unknown call status\");"),
    (0, "}"),
    (0, ""),
];

/// The loader that opens the compiled library by its file name on the
/// platform: `$0` is the name of the library.
pub const LOADER: [TemplateLine; 18] = [
    (0, "DynamicLibrary _open() {"),
    (1, "if (Platform.isAndroid || Platform.isLinux) {"),
    (2, "return DynamicLibrary.open(\"lib$0.so\");"),
    (1, "}"),
    (1, "if (Platform.isIOS) {"),
    (2, "return DynamicLibrary.executable();"),
    (1, "}"),
    (1, "if (Platform.isMacOS) {"),
    (2, "return DynamicLibrary.open(\"lib$0.dylib\");"),
    (1, "}"),
    (1, "if (Platform.isWindows) {"),
    (2, "return DynamicLibrary.open(\"$0.dll\");"),
    (1, "}"),
    (1, "throw UnsupportedError(\"no library for this platform\");"),
    (0, "}"),
    (0, ""),
    (0, "final DynamicLibrary _uniffiLibrary = _open();"),
    (0, ""),
];

} // verus!
