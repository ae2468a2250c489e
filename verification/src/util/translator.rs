//! The English texts of the messages.
use vstd::prelude::*;
use crate::util::text::str_eq;

verus! {

/// The English text of a message written in Chinese, for the messages the
/// program knows.
pub open spec fn english_of(text: Seq<char>) -> Option<Seq<char>> {
    if text == "原因"@ {
        Some("Reason"@)
    } else if text == "出错！"@ {
        Some("Error!"@)
    } else if text == "新建成功！"@ {
        Some("New Success!"@)
    } else if text == "新建失败！"@ {
        Some("New Failed!"@)
    } else if text == "删除成功！"@ {
        Some("Delete Session Success"@)
    } else if text == "删除失败！"@ {
        Some("Delete Session Failed!"@)
    } else if text == "复制失败！"@ {
        Some("Copy Failed!"@)
    } else if text == "复制成功！"@ {
        Some("Copy Success!"@)
    } else if text == "编辑失败！"@ {
        Some("Edit Failed!"@)
    } else if text == "不允许删除！"@ {
        Some("Not Allow To Delete!"@)
    } else if text == "重置成功！"@ {
        Some("Reset Success!"@)
    } else if text == "已经收藏！"@ {
        Some("Already Marked!"@)
    } else if text == "收藏成功！"@ {
        Some("Favorite Success!"@)
    } else if text == "取消收藏成功！"@ {
        Some("Unmarked Success!"@)
    } else if text == "保存失败！"@ {
        Some("Save Failed!"@)
    } else if text == "保存成功！"@ {
        Some("Save Success!"@)
    } else if text == "收藏失败！"@ {
        Some("Favorite Failed!"@)
    } else if text == "清空失败！"@ {
        Some("Remove All Failed!"@)
    } else if text == "清空成功！"@ {
        Some("Remove All Success!"@)
    } else if text == "隐藏程序失败！"@ {
        Some("Hide Window Failed!"@)
    } else if text == "清除缓存失败！"@ {
        Some("Clean Cache Failed!"@)
    } else if text == "清除缓存成功！"@ {
        Some("Clean Cache Success!"@)
    } else if text == "不允许刷新！"@ {
        Some("Not Allow Flushing!"@)
    } else if text == "打开链接失败！"@ {
        Some("Open URL Failed!"@)
    } else if text == "同步失败！"@ {
        Some("Sync Failed!"@)
    } else if text == "同步成功！"@ {
        Some("Sync Success!!"@)
    } else if text == "正在重试..."@ {
        Some("retrying..."@)
    } else if text == "正在同步..."@ {
        Some("Sync..."@)
    } else {
        None
    }
}

/// `text` in `language`: as it is for "cn"; otherwise its English text,
/// or `text` itself when there is none.
pub open spec fn in_language(text: Seq<char>, language: Seq<char>) -> Seq<char> {
    if language == "cn"@ {
        text
    } else {
        match english_of(text) {
            Some(t) => t,
            None => text,
        }
    }
}

/// `text` in `language` (see [`in_language`]).
pub fn tr(text: &str, language: &str) -> (r: String)
    ensures
        r@ == in_language(text@, language@),
{
    if str_eq(language, "cn") {
        return text.to_owned();
    }
    if str_eq(text, "原因") {
        return "Reason".to_owned();
    }
    if str_eq(text, "出错！") {
        return "Error!".to_owned();
    }
    if str_eq(text, "新建成功！") {
        return "New Success!".to_owned();
    }
    if str_eq(text, "新建失败！") {
        return "New Failed!".to_owned();
    }
    if str_eq(text, "删除成功！") {
        return "Delete Session Success".to_owned();
    }
    if str_eq(text, "删除失败！") {
        return "Delete Session Failed!".to_owned();
    }
    if str_eq(text, "复制失败！") {
        return "Copy Failed!".to_owned();
    }
    if str_eq(text, "复制成功！") {
        return "Copy Success!".to_owned();
    }
    if str_eq(text, "编辑失败！") {
        return "Edit Failed!".to_owned();
    }
    if str_eq(text, "不允许删除！") {
        return "Not Allow To Delete!".to_owned();
    }
    if str_eq(text, "重置成功！") {
        return "Reset Success!".to_owned();
    }
    if str_eq(text, "已经收藏！") {
        return "Already Marked!".to_owned();
    }
    if str_eq(text, "收藏成功！") {
        return "Favorite Success!".to_owned();
    }
    if str_eq(text, "取消收藏成功！") {
        return "Unmarked Success!".to_owned();
    }
    if str_eq(text, "保存失败！") {
        return "Save Failed!".to_owned();
    }
    if str_eq(text, "保存成功！") {
        return "Save Success!".to_owned();
    }
    if str_eq(text, "收藏失败！") {
        return "Favorite Failed!".to_owned();
    }
    if str_eq(text, "清空失败！") {
        return "Remove All Failed!".to_owned();
    }
    if str_eq(text, "清空成功！") {
        return "Remove All Success!".to_owned();
    }
    if str_eq(text, "隐藏程序失败！") {
        return "Hide Window Failed!".to_owned();
    }
    if str_eq(text, "清除缓存失败！") {
        return "Clean Cache Failed!".to_owned();
    }
    if str_eq(text, "清除缓存成功！") {
        return "Clean Cache Success!".to_owned();
    }
    if str_eq(text, "不允许刷新！") {
        return "Not Allow Flushing!".to_owned();
    }
    if str_eq(text, "打开链接失败！") {
        return "Open URL Failed!".to_owned();
    }
    if str_eq(text, "同步失败！") {
        return "Sync Failed!".to_owned();
    }
    if str_eq(text, "同步成功！") {
        return "Sync Success!!".to_owned();
    }
    if str_eq(text, "正在重试...") {
        return "retrying...".to_owned();
    }
    if str_eq(text, "正在同步...") {
        return "Sync...".to_owned();
    }
    text.to_owned()
}

/// The text of a failure message: the message and "reason" in `language`,
/// then the reason.
pub fn failure_text(key: &str, reason: &str, language: &str) -> (r: String)
    ensures
        r@ == in_language(key@, language@) + in_language("原因"@, language@) + ": "@ + reason@,
{
    let mut r = tr(key, language);
    let why = tr("原因", language);
    r.append(why.as_str());
    r.append(": ");
    r.append(reason);
    r
}

/// Messages in Chinese are shown as they are.
pub proof fn law_tr_cn_identity(text: Seq<char>)
    ensures
        in_language(text, "cn"@) == text,
{
}

/// A message the program does not know is shown as it is.
pub proof fn law_tr_unknown_identity(text: Seq<char>, language: Seq<char>)
    requires
        english_of(text) is None,
    ensures
        in_language(text, language) == text,
{
}

} // verus!
