//! The text of the error pages: a heading and explanation per status code.

use vstd::prelude::*;

verus! {

/// The heading, explanation lines and suggested next step of an error page.
pub struct BsodText {
    pub error_code: &'static str,
    pub text: [&'static str; 2],
    pub todo: &'static str,
}

/// The status codes with a page of their own; every other code is shown
/// with the page of 403.
pub open spec fn page_code(code: u16) -> u16 {
    if code == 400 || code == 403 || code == 404 {
        code
    } else {
        403
    }
}

/// The heading of each page.
pub open spec fn page_heading(code: u16) -> Seq<char> {
    if code == 400 {
        "400 BAD REQUEST"@
    } else if code == 404 {
        "404 NOT FOUND"@
    } else {
        "403 FORBIDDEN"@
    }
}

/// The explanation lines of each page.
pub open spec fn page_lines(code: u16) -> (Seq<char>, Seq<char>) {
    if code == 400 {
        (
            "要求が不正の為処理が不能・もしくは実行に不適の為、正常なリクエストの生成が出来ませんでした。"@,
            "TIPS: クエリパラメータ・フォーム内容をご確認ください。"@,
        )
    } else if code == 404 {
        (
            "要求されたリクエストはURIが誤っているか、リソース自体がサーバに存在しておりません。"@,
            "TIPS: URIを確認し、スペルミスおよびワードチョイスや数値のミスが無いかをご確認ください。"@,
        )
    } else {
        ("クライアントはサーバの該当コンテンツへのアクセス権がありません。"@, "TIPS: URIを確認してください。"@)
    }
}

/// Suggested next step of every page.
pub open spec fn default_todo() -> Seq<char> {
    "任意のｱﾄﾞﾚｽを入力するか、前のページにお戻りください."@
}

/// The text of the error page for `code`.
pub fn bsod_text(code: u16) -> (r: BsodText)
    ensures
        r.error_code@ == page_heading(page_code(code)),
        r.todo@ == default_todo(),
        (r.text@[0]@, r.text@[1]@) == page_lines(page_code(code)),
{
    let todo = "任意のｱﾄﾞﾚｽを入力するか、前のページにお戻りください.";
    if code == 400 {
        BsodText {
            error_code: "400 BAD REQUEST",
            text: [
                "要求が不正の為処理が不能・もしくは実行に不適の為、正常なリクエストの生成が出来ませんでした。",
                "TIPS: クエリパラメータ・フォーム内容をご確認ください。",
            ],
            todo,
        }
    } else if code == 404 {
        BsodText {
            error_code: "404 NOT FOUND",
            text: [
                "要求されたリクエストはURIが誤っているか、リソース自体がサーバに存在しておりません。",
                "TIPS: URIを確認し、スペルミスおよびワードチョイスや数値のミスが無いかをご確認ください。",
            ],
            todo,
        }
    } else {
        BsodText {
            error_code: "403 FORBIDDEN",
            text: [
                "クライアントはサーバの該当コンテンツへのアクセス権がありません。",
                "TIPS: URIを確認してください。",
            ],
            todo,
        }
    }
}

} // verus!
