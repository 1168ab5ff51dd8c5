//! Credential files: which ones are usable, and whose they are.

use vstd::prelude::*;
use vstd::string::*;
use vstd::utf8::*;

use crate::digest::{fingerprint, hex, is_hex_digit, sha256};
use crate::json::{document, parse, tree_member, tree_text, Json, JsonTree};
use crate::text::{chars_of, held, outcome};

verus! {

/// The text under `name` in the object `tokens` of a credential document.
pub open spec fn token_field(tree: JsonTree, name: Seq<char>) -> Option<Seq<char>> {
    match tree_member(tree, "tokens"@) {
        Some(tokens) => match tree_member(tokens, name) {
            Some(value) => tree_text(value),
            None => None,
        },
        None => None,
    }
}

/// Whether a credential document has an access token that is not empty.
pub open spec fn has_access_token(tree: JsonTree) -> bool {
    token_field(tree, "access_token"@) matches Some(token) && token.len() > 0
}

/// What a credential document is told: nothing, where it has an access token.
pub open spec fn document_verdict(tree: JsonTree) -> Result<(), Seq<char>> {
    if has_access_token(tree) {
        Ok(())
    } else {
        Err("当前 auth.json 不包含 ChatGPT access token"@)
    }
}

/// What a credential file is told.
pub open spec fn auth_verdict(bytes: Seq<u8>) -> Result<(), Seq<char>> {
    match document(bytes) {
        Ok(tree) => document_verdict(tree),
        Err(_) => Err("当前 auth.json 不是有效 JSON"@),
    }
}

/// The text that stays the same for one account: its account id, or else its id token.
pub open spec fn stable_text(tree: JsonTree) -> Option<Seq<char>> {
    match token_field(tree, "account_id"@) {
        Some(text) => Some(text),
        None => token_field(tree, "id_token"@),
    }
}

/// The id under which the account with this stable text is kept: the first 24 digits of the
/// SHA-256 digest.
pub open spec fn account_key(stable: Seq<char>) -> Seq<char> {
    hex(sha256(encode_utf8(stable))).take(24)
}

/// The account id of a credential document.
pub open spec fn document_identity(tree: JsonTree) -> Result<Seq<char>, Seq<char>> {
    match stable_text(tree) {
        Some(stable) => Ok(account_key(stable)),
        None => Err("无法从认证文件识别账号"@),
    }
}

/// The account id of a credential file.
pub open spec fn identity(bytes: Seq<u8>) -> Result<Seq<char>, Seq<char>> {
    match document(bytes) {
        Ok(tree) => document_identity(tree),
        Err(complaint) => Err(complaint),
    }
}

/// The account id of a usable credential file: the verdict first, then the identity.
pub open spec fn usable_identity(bytes: Seq<u8>) -> Result<Seq<char>, Seq<char>> {
    match auth_verdict(bytes) {
        Ok(_) => identity(bytes),
        Err(error) => Err(error),
    }
}

/// The digits that `is_ascii_hexdigit` accepts.
pub open spec fn is_any_hex_digit(c: char) -> bool {
    '0' <= c <= '9' || 'a' <= c <= 'f' || 'A' <= c <= 'F'
}

/// Whether a text has the shape of an account id.
pub open spec fn is_account_id(id: Seq<char>) -> bool {
    id.len() == 24 && forall|i: int| 0 <= i < id.len() ==> is_any_hex_digit(#[trigger] id[i])
}

/// What an account id is told.
pub open spec fn account_id_verdict(id: Seq<char>) -> Result<(), Seq<char>> {
    if is_account_id(id) {
        Ok(())
    } else {
        Err("账号 ID 格式无效"@)
    }
}

/// The text under `name` in the object `tokens`.
fn token_text<'a>(json: &'a Json, name: &str) -> (text: Option<&'a str>)
    ensures
        held(text) == token_field(json@, name@),
{
    match json.get("tokens") {
        Some(tokens) => match tokens.get(name) {
            Some(value) => value.as_str(),
            None => None,
        },
        None => None,
    }
}

/// Accepts a credential document that has an access token.
pub fn check_document(json: &Json) -> (r: Result<(), String>)
    ensures
        outcome(r) == document_verdict(json@),
{
    match token_text(json, "access_token") {
        Some(token) => if !token.is_empty() {
            return Ok(());
        },
        None => {},
    }
    Err("当前 auth.json 不包含 ChatGPT access token".to_owned())
}

/// Accepts a credential file that is JSON and has an access token.
pub fn validate_auth(bytes: &[u8]) -> (r: Result<(), String>)
    ensures
        outcome(r) == auth_verdict(bytes@),
{
    match parse(bytes) {
        Ok(json) => check_document(&json),
        Err(_) => Err("当前 auth.json 不是有效 JSON".to_owned()),
    }
}

/// The account id of a credential document.
pub fn identify_document(json: &Json) -> (r: Result<String, String>)
    ensures
        outcome(r) == document_identity(json@),
        r matches Ok(id) ==> is_account_id(id@),
{
    let stable = match token_text(json, "account_id") {
        Some(text) => text,
        None => match token_text(json, "id_token") {
            Some(text) => text,
            None => {
                return Err("无法从认证文件识别账号".to_owned());
            },
        },
    };
    let print = fingerprint(stable.as_bytes());
    assert(print@.take(24) =~= print@.subrange(0, 24));
    assert(is_account_id(print@.take(24))) by {
        assert forall|i: int| 0 <= i < 24 implies is_any_hex_digit(
            #[trigger] print@.take(24)[i],
        ) by {
            assert(is_hex_digit(print@[i]));
        }
    }
    Ok(print.as_str().substring_char(0, 24).to_owned())
}

/// The account id of a credential file.
pub fn auth_identity(bytes: &[u8]) -> (r: Result<String, String>)
    ensures
        outcome(r) == identity(bytes@),
        r matches Ok(id) ==> is_account_id(id@),
{
    match parse(bytes) {
        Ok(json) => identify_document(&json),
        Err(error) => Err(error),
    }
}

/// The account id of a credential file that is usable.
pub fn usable_auth_identity(bytes: &[u8]) -> (r: Result<String, String>)
    ensures
        outcome(r) == usable_identity(bytes@),
        r matches Ok(id) ==> is_account_id(id@),
{
    match validate_auth(bytes) {
        Ok(_) => auth_identity(bytes),
        Err(error) => Err(error),
    }
}

/// Accepts an account id: 24 hexadecimal digits and nothing else.
pub fn validate_account_id(account_id: &str) -> (r: Result<(), String>)
    ensures
        outcome(r) == account_id_verdict(account_id@),
{
    let chars = chars_of(account_id);
    let mut valid: bool = chars.len() == 24;
    for i in 0..chars.len()
        invariant
            chars@ == account_id@,
            valid == (chars@.len() == 24 && forall|j: int|
                0 <= j < i ==> is_any_hex_digit(#[trigger] chars@[j])),
    {
        let c: char = chars[i];
        let hexadecimal: bool = ('0' <= c && c <= '9') || ('a' <= c && c <= 'f') || ('A' <= c && c
            <= 'F');
        valid = valid && hexadecimal;
    }
    if valid {
        Ok(())
    } else {
        Err("账号 ID 格式无效".to_owned())
    }
}

/// The account of credentials is told by the account id in them, whatever their tokens are: two
/// that name the same account have one identity.
pub proof fn law_identity_is_that_of_the_account(a: JsonTree, b: JsonTree)
    requires
        token_field(a, "account_id"@) is Some,
        token_field(a, "account_id"@) == token_field(b, "account_id"@),
    ensures
        document_identity(a) == document_identity(b),
        document_identity(a) is Ok,
{
}

/// A credential document is usable exactly where the object under `tokens` has a text under
/// `access_token` that is not empty.
pub proof fn law_usable_credentials_have_an_access_token(
    members: Map<Seq<char>, JsonTree>,
    tokens: Map<Seq<char>, JsonTree>,
    token: Seq<char>,
)
    requires
        members.contains_key("tokens"@),
        members["tokens"@] == JsonTree::Object(tokens),
    ensures
        tokens.contains_key("access_token"@) && tokens["access_token"@] == JsonTree::Text(token)
            && token.len() > 0 ==> document_verdict(JsonTree::Object(members)) is Ok,
        document_verdict(JsonTree::Object(members)) is Ok ==> tokens.contains_key("access_token"@)
            && (tokens["access_token"@] matches JsonTree::Text(text) && text.len() > 0),
        document_verdict(JsonTree::Object(members)) matches Err(error) ==> error
            == "当前 auth.json 不包含 ChatGPT access token"@,
{
}

/// A document without an object of tokens is not usable, and tells of no account.
pub proof fn law_credentials_without_tokens_are_refused(tree: JsonTree)
    requires
        tree matches JsonTree::Object(members) ==> !(members.contains_key("tokens"@)
            && members["tokens"@] is Object),
    ensures
        document_verdict(tree) == Err::<(), Seq<char>>(
            "当前 auth.json 不包含 ChatGPT access token"@,
        ),
        document_identity(tree) == Err::<Seq<char>, Seq<char>>("无法从认证文件识别账号"@),
{
}

/// The account of credentials is made from the text under `account_id`, or, where that is not a
/// text, from the one under `id_token`: it is the beginning of its digest. Without either the
/// account is not known.
pub proof fn law_account_is_made_from_the_account_id(
    members: Map<Seq<char>, JsonTree>,
    tokens: Map<Seq<char>, JsonTree>,
    stable: Seq<char>,
)
    requires
        members.contains_key("tokens"@),
        members["tokens"@] == JsonTree::Object(tokens),
    ensures
        tokens.contains_key("account_id"@) && tokens["account_id"@] == JsonTree::Text(stable)
            ==> document_identity(JsonTree::Object(members)) == Ok::<Seq<char>, Seq<char>>(
            hex(sha256(encode_utf8(stable))).take(24),
        ),
        !(tokens.contains_key("account_id"@) && tokens["account_id"@] is Text)
            && tokens.contains_key("id_token"@) && tokens["id_token"@] == JsonTree::Text(stable)
            ==> document_identity(JsonTree::Object(members)) == Ok::<Seq<char>, Seq<char>>(
            hex(sha256(encode_utf8(stable))).take(24),
        ),
        !(tokens.contains_key("account_id"@) && tokens["account_id"@] is Text) && !(
        tokens.contains_key("id_token"@) && tokens["id_token"@] is Text) ==> document_identity(
            JsonTree::Object(members),
        ) == Err::<Seq<char>, Seq<char>>("无法从认证文件识别账号"@),
{
}

/// A credential file is usable and of an account exactly where it is a JSON document that is both;
/// what stands in the way is told.
pub proof fn law_credential_file_is_its_document(bytes: Seq<u8>, tree: JsonTree)
    ensures
        document(bytes) == Ok::<JsonTree, Seq<char>>(tree) ==> {
            &&& auth_verdict(bytes) == document_verdict(tree)
            &&& identity(bytes) == document_identity(tree)
            &&& usable_identity(bytes) is Ok <==> document_verdict(tree) is Ok
                && document_identity(tree) is Ok
            &&& usable_identity(bytes) is Ok ==> usable_identity(bytes) == document_identity(tree)
        },
        document(bytes) is Err ==> auth_verdict(bytes) == Err::<(), Seq<char>>(
            "当前 auth.json 不是有效 JSON"@,
        ) && usable_identity(bytes) is Err && identity(bytes) is Err,
{
}

/// Whether a character is a hexadecimal digit, by its number.
pub open spec fn is_hexadecimal(c: char) -> bool {
    let n = c as u32;
    48 <= n <= 57 || 65 <= n <= 70 || 97 <= n <= 102
}

/// The two ways to tell a hexadecimal digit agree.
proof fn lemma_hexadecimal(c: char)
    ensures
        is_hexadecimal(c) <==> is_any_hex_digit(c),
{
    let n = c as u32;
    assert('0' <= c <= '9' <==> 48 <= n <= 57);
    assert('A' <= c <= 'F' <==> 65 <= n <= 70);
    assert('a' <= c <= 'f' <==> 97 <= n <= 102);
}

/// An account id is twenty-four hexadecimal digits.
pub proof fn law_account_ids_are_hexadecimal(id: Seq<char>)
    ensures
        account_id_verdict(id) is Ok <==> id.len() == 24 && forall|i: int|
            0 <= i < 24 ==> is_hexadecimal(#[trigger] id[i]),
        account_id_verdict(id) matches Err(error) ==> error == "账号 ID 格式无效"@,
{
    assert forall|i: int| 0 <= i < id.len() implies (is_hexadecimal(#[trigger] id[i])
        <==> is_any_hex_digit(id[i])) by {
        lemma_hexadecimal(id[i]);
    }
}

} // verus!
