//! The descriptor of text.

use vstd::prelude::*;
use crate::gen::code_type::{CodeType, Renderable};
use crate::template::{expand, expanded, slot_texts, TemplateLine};
use crate::tokens::{Token, token_models, TokenModel};

verus! {

/// The converter of text. It crosses as a buffer of its UTF-8 bytes, and
/// stands in a buffer behind the number of those bytes. The encoding of
/// short texts is kept, up to a bound, while the module lives.
pub const STRING_HELPER: [TemplateLine; 45] = [
    (0, "class FfiConverterString {"),
    (1, "static final Map<String, Uint8List> _utf8Cache = {};"),
    (1, "static const int _maxCacheSize = 128;"),
    (1, ""),
    (1, "static final Uint8List _emptyUtf8 = Uint8List(0);"),
    (1, ""),
    (1, "static Uint8List _getCachedUtf8(String value) {"),
    (2, "if (value.isEmpty) return _emptyUtf8;"),
    (2, "if (value.length > 256) {"),
    (3, "return utf8.encoder.convert(value);"),
    (2, "}"),
    (2, ""),
    (2, "return _utf8Cache.putIfAbsent(value, () {"),
    (3, "if (_utf8Cache.length >= _maxCacheSize) {"),
    (4, "_utf8Cache.clear();"),
    (3, "}"),
    (3, "return utf8.encoder.convert(value);"),
    (2, "});"),
    (1, "}"),
    (1, ""),
    (1, "static String lift(RustBuffer buf) {"),
    (2, "return utf8.decoder.convert(buf.asUint8List());"),
    (1, "}"),
    (1, ""),
    (1, "static RustBuffer lower(String value) {"),
    (2, "return toRustBuffer(_getCachedUtf8(value));"),
    (1, "}"),
    (1, ""),
    (1, "static LiftRetVal<String> read(Uint8List buf) {"),
    (2, "final end = buf.buffer.asByteData(buf.offsetInBytes).getInt32(0) + 4;"),
    (2, "return LiftRetVal(utf8.decoder.convert(buf, 4, end), end);"),
    (1, "}"),
    (1, ""),
    (1, "static int allocationSize([String value = \"\"]) {"),
    (2, "return _getCachedUtf8(value).length + 4;"),
    (1, "}"),
    (1, ""),
    (1, "static int write(String value, Uint8List buf) {"),
    (2, "final list = _getCachedUtf8(value);"),
    (2, "buf.buffer.asByteData(buf.offsetInBytes).setInt32(0, list.length);"),
    (2, "buf.setAll(4, list);"),
    (2, "return list.length + 4;"),
    (1, "}"),
    (0, "}"),
    (0, ""),
];

/// The descriptor of text.
#[derive(Debug)]
pub struct StringCodeType;

impl CodeType for StringCodeType {
    open spec fn label(&self) -> Seq<char> {
        "String"@
    }

    fn type_label(&self) -> (out: String) {
        "String".to_owned()
    }
}

impl Renderable for StringCodeType {
    open spec fn helper(&self) -> Seq<TokenModel> {
        expanded(STRING_HELPER@, Seq::empty())
    }

    fn render_type_helper(&self) -> (tokens: Vec<Token>) {
        let mut tokens: Vec<Token> = Vec::new();
        let none: Vec<String> = Vec::new();
        assert(slot_texts(none@) =~= Seq::<Seq<char>>::empty());
        assert(token_models(tokens@) =~= Seq::<TokenModel>::empty());
        expand(&STRING_HELPER, &none, &mut tokens);
        assert(token_models(tokens@) =~= self.helper());
        tokens
    }
}

} // verus!
