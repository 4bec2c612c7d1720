//! The reference vocabulary: the fixed set of column header names the
//! consuming system recognizes.
//!
//! The vocabulary is constant data, built once at startup and held for
//! the process lifetime; the matcher treats it as an exact-string set.

use vstd::prelude::*;
use crate::text::str_views;

verus! {

/// One span of the recognized column names, in canonical order.
pub open spec fn vocab_chunk_a() -> Seq<Seq<char>> {
    seq![
        "标题"@,
        "申请人"@,
        "公开(公告)号"@,
        "摘要"@,
        "公开(公告)日"@,
        "申请号"@,
        "申请日"@,
        "专利类型"@,
        "公开国别"@,
        "链接到incoPat"@,
        "IPC主分类"@,
        "IPC"@,
        "国民经济分类"@,
        "文献种类代码"@,
        "小类代码"@,
        "申请人贡献分"@,
        "标题(翻译)"@,
        "标题(小语种原文)"@,
        "摘要(小语种原文)"@,
        "摘要(翻译)"@,
    ]
}

/// Appends one span of the vocabulary.
#[verifier::rlimit(60)]
fn push_chunk_a(v: &mut Vec<String>)
    ensures
        str_views(final(v)@) == str_views(old(v)@) + vocab_chunk_a(),
{
    v.push("标题".to_owned());
    v.push("申请人".to_owned());
    v.push("公开(公告)号".to_owned());
    v.push("摘要".to_owned());
    v.push("公开(公告)日".to_owned());
    v.push("申请号".to_owned());
    v.push("申请日".to_owned());
    v.push("专利类型".to_owned());
    v.push("公开国别".to_owned());
    v.push("链接到incoPat".to_owned());
    v.push("IPC主分类".to_owned());
    v.push("IPC".to_owned());
    v.push("国民经济分类".to_owned());
    v.push("文献种类代码".to_owned());
    v.push("小类代码".to_owned());
    v.push("申请人贡献分".to_owned());
    v.push("标题(翻译)".to_owned());
    v.push("标题(小语种原文)".to_owned());
    v.push("摘要(小语种原文)".to_owned());
    v.push("摘要(翻译)".to_owned());
    proof {
        assert(str_views(v@) =~= str_views(old(v)@) + vocab_chunk_a());
    }
}

/// One span of the recognized column names, in canonical order.
pub open spec fn vocab_chunk_b() -> Seq<Seq<char>> {
    seq![
        "标准化当前权利人"@,
        "当前权利人"@,
        "代理机构"@,
        "代理人"@,
        "审查员"@,
        "优先权信息"@,
        "优先权号"@,
        "优先权日"@,
        "最早优先权日"@,
        "优先权国别"@,
        "PCT国际申请号"@,
        "PCT国际公布号"@,
        "PCT进入国家阶段日"@,
        "首次公开日"@,
        "授权公告日"@,
        "实质审查生效日"@,
        "提出实审时长"@,
        "审查时长"@,
        "失效日"@,
        "专利寿命(月)"@,
    ]
}

/// Appends one span of the vocabulary.
#[verifier::rlimit(60)]
fn push_chunk_b(v: &mut Vec<String>)
    ensures
        str_views(final(v)@) == str_views(old(v)@) + vocab_chunk_b(),
{
    v.push("标准化当前权利人".to_owned());
    v.push("当前权利人".to_owned());
    v.push("代理机构".to_owned());
    v.push("代理人".to_owned());
    v.push("审查员".to_owned());
    v.push("优先权信息".to_owned());
    v.push("优先权号".to_owned());
    v.push("优先权日".to_owned());
    v.push("最早优先权日".to_owned());
    v.push("优先权国别".to_owned());
    v.push("PCT国际申请号".to_owned());
    v.push("PCT国际公布号".to_owned());
    v.push("PCT进入国家阶段日".to_owned());
    v.push("首次公开日".to_owned());
    v.push("授权公告日".to_owned());
    v.push("实质审查生效日".to_owned());
    v.push("提出实审时长".to_owned());
    v.push("审查时长".to_owned());
    v.push("失效日".to_owned());
    v.push("专利寿命(月)".to_owned());
    proof {
        assert(str_views(v@) =~= str_views(old(v)@) + vocab_chunk_b());
    }
}

/// One span of the recognized column names, in canonical order.
pub open spec fn vocab_chunk_c() -> Seq<Seq<char>> {
    seq![
        "标准类型"@,
        "标准项目"@,
        "标准号"@,
        "合享价值度"@,
        "技术稳定性"@,
        "技术先进性"@,
        "保护范围"@,
        "首项权利要求"@,
        "独立权利要求"@,
        "权利要求数量"@,
        "独立权利要求数量"@,
        "从属权利要求数量"@,
        "文献页数"@,
        "首权字数"@,
        "技术功效短语"@,
        "技术功效句"@,
        "技术功效1级"@,
        "技术功效2级"@,
        "技术功效3级"@,
        "技术功效TRIZ参数"@,
    ]
}

/// Appends one span of the vocabulary.
#[verifier::rlimit(60)]
fn push_chunk_c(v: &mut Vec<String>)
    ensures
        str_views(final(v)@) == str_views(old(v)@) + vocab_chunk_c(),
{
    v.push("标准类型".to_owned());
    v.push("标准项目".to_owned());
    v.push("标准号".to_owned());
    v.push("合享价值度".to_owned());
    v.push("技术稳定性".to_owned());
    v.push("技术先进性".to_owned());
    v.push("保护范围".to_owned());
    v.push("首项权利要求".to_owned());
    v.push("独立权利要求".to_owned());
    v.push("权利要求数量".to_owned());
    v.push("独立权利要求数量".to_owned());
    v.push("从属权利要求数量".to_owned());
    v.push("文献页数".to_owned());
    v.push("首权字数".to_owned());
    v.push("技术功效短语".to_owned());
    v.push("技术功效句".to_owned());
    v.push("技术功效1级".to_owned());
    v.push("技术功效2级".to_owned());
    v.push("技术功效3级".to_owned());
    v.push("技术功效TRIZ参数".to_owned());
    proof {
        assert(str_views(v@) =~= str_views(old(v)@) + vocab_chunk_c());
    }
}

/// One span of the recognized column names, in canonical order.
pub open spec fn vocab_chunk_d() -> Seq<Seq<char>> {
    seq![
        "洛迦诺分类号"@,
        "EC"@,
        "CPC"@,
        "UC"@,
        "FI"@,
        "F-term"@,
        "新兴产业分类"@,
        "申请人(翻译)"@,
        "申请人(其他)"@,
        "标准化申请人"@,
        "第一申请人"@,
        "申请人数量"@,
        "申请人类型"@,
        "申请人国别代码"@,
        "申请人地址"@,
        "申请人地址(其他)"@,
        "申请人省市代码"@,
        "中国申请人地市"@,
        "中国申请人区县"@,
        "工商别名"@,
    ]
}

/// Appends one span of the vocabulary.
#[verifier::rlimit(60)]
fn push_chunk_d(v: &mut Vec<String>)
    ensures
        str_views(final(v)@) == str_views(old(v)@) + vocab_chunk_d(),
{
    v.push("洛迦诺分类号".to_owned());
    v.push("EC".to_owned());
    v.push("CPC".to_owned());
    v.push("UC".to_owned());
    v.push("FI".to_owned());
    v.push("F-term".to_owned());
    v.push("新兴产业分类".to_owned());
    v.push("申请人(翻译)".to_owned());
    v.push("申请人(其他)".to_owned());
    v.push("标准化申请人".to_owned());
    v.push("第一申请人".to_owned());
    v.push("申请人数量".to_owned());
    v.push("申请人类型".to_owned());
    v.push("申请人国别代码".to_owned());
    v.push("申请人地址".to_owned());
    v.push("申请人地址(其他)".to_owned());
    v.push("申请人省市代码".to_owned());
    v.push("中国申请人地市".to_owned());
    v.push("中国申请人区县".to_owned());
    v.push("工商别名".to_owned());
    proof {
        assert(str_views(v@) =~= str_views(old(v)@) + vocab_chunk_d());
    }
}

/// One span of the recognized column names, in canonical order.
pub open spec fn vocab_chunk_e() -> Seq<Seq<char>> {
    seq![
        "工商英文名"@,
        "工商注册地址"@,
        "工商公司类型"@,
        "工商成立日期"@,
        "工商统一社会信用代码"@,
        "工商注册号"@,
        "工商上市代码"@,
        "工商企业状态"@,
        "发明人"@,
        "发明(设计)人(其他)"@,
        "第一发明人"@,
        "当前发明人名称"@,
        "发明人数量"@,
        "发明人国别"@,
        "发明人地址"@,
        "发明(设计)人地址(其他)"@,
        "引证专利"@,
        "被引证专利"@,
        "家族引证"@,
        "家族被引证"@,
    ]
}

/// Appends one span of the vocabulary.
#[verifier::rlimit(60)]
fn push_chunk_e(v: &mut Vec<String>)
    ensures
        str_views(final(v)@) == str_views(old(v)@) + vocab_chunk_e(),
{
    v.push("工商英文名".to_owned());
    v.push("工商注册地址".to_owned());
    v.push("工商公司类型".to_owned());
    v.push("工商成立日期".to_owned());
    v.push("工商统一社会信用代码".to_owned());
    v.push("工商注册号".to_owned());
    v.push("工商上市代码".to_owned());
    v.push("工商企业状态".to_owned());
    v.push("发明人".to_owned());
    v.push("发明(设计)人(其他)".to_owned());
    v.push("第一发明人".to_owned());
    v.push("当前发明人名称".to_owned());
    v.push("发明人数量".to_owned());
    v.push("发明人国别".to_owned());
    v.push("发明人地址".to_owned());
    v.push("发明(设计)人地址(其他)".to_owned());
    v.push("引证专利".to_owned());
    v.push("被引证专利".to_owned());
    v.push("家族引证".to_owned());
    v.push("家族被引证".to_owned());
    proof {
        assert(str_views(v@) =~= str_views(old(v)@) + vocab_chunk_e());
    }
}

/// One span of the recognized column names, in canonical order.
pub open spec fn vocab_chunk_f() -> Seq<Seq<char>> {
    seq![
        "引证申请人"@,
        "被引证申请人"@,
        "家族引证申请人"@,
        "家族被引证申请人"@,
        "引证次数"@,
        "被引证次数"@,
        "家族引证次数"@,
        "家族被引证次数"@,
        "引证科技文献"@,
        "被引证国别(forward)"@,
        "引证类别"@,
        "简单同族"@,
        "扩展同族"@,
        "DocDB同族"@,
        "简单同族ID"@,
        "扩展同族ID"@,
        "DocDB同族ID"@,
        "简单同族个数"@,
        "扩展同族个数"@,
        "DocDB同族个数"@,
    ]
}

/// Appends one span of the vocabulary.
#[verifier::rlimit(60)]
fn push_chunk_f(v: &mut Vec<String>)
    ensures
        str_views(final(v)@) == str_views(old(v)@) + vocab_chunk_f(),
{
    v.push("引证申请人".to_owned());
    v.push("被引证申请人".to_owned());
    v.push("家族引证申请人".to_owned());
    v.push("家族被引证申请人".to_owned());
    v.push("引证次数".to_owned());
    v.push("被引证次数".to_owned());
    v.push("家族引证次数".to_owned());
    v.push("家族被引证次数".to_owned());
    v.push("引证科技文献".to_owned());
    v.push("被引证国别(forward)".to_owned());
    v.push("引证类别".to_owned());
    v.push("简单同族".to_owned());
    v.push("扩展同族".to_owned());
    v.push("DocDB同族".to_owned());
    v.push("简单同族ID".to_owned());
    v.push("扩展同族ID".to_owned());
    v.push("DocDB同族ID".to_owned());
    v.push("简单同族个数".to_owned());
    v.push("扩展同族个数".to_owned());
    v.push("DocDB同族个数".to_owned());
    proof {
        assert(str_views(v@) =~= str_views(old(v)@) + vocab_chunk_f());
    }
}

/// One span of the recognized column names, in canonical order.
pub open spec fn vocab_chunk_g() -> Seq<Seq<char>> {
    seq![
        "同族国家/地区"@,
        "母案"@,
        "分案"@,
        "一案双申"@,
        "专利有效性"@,
        "当前法律状态"@,
        "法律文书日期"@,
        "法律状态"@,
        "法律文书编号"@,
        "复审请求人"@,
        "无效请求人"@,
        "复审决定"@,
        "复审无效决定日"@,
        "复审无效法律依据"@,
        "转让次数"@,
        "转让执行日"@,
        "转让人"@,
        "受让人"@,
        "标准受让人"@,
        "许可次数"@,
    ]
}

/// Appends one span of the vocabulary.
#[verifier::rlimit(60)]
fn push_chunk_g(v: &mut Vec<String>)
    ensures
        str_views(final(v)@) == str_views(old(v)@) + vocab_chunk_g(),
{
    v.push("同族国家/地区".to_owned());
    v.push("母案".to_owned());
    v.push("分案".to_owned());
    v.push("一案双申".to_owned());
    v.push("专利有效性".to_owned());
    v.push("当前法律状态".to_owned());
    v.push("法律文书日期".to_owned());
    v.push("法律状态".to_owned());
    v.push("法律文书编号".to_owned());
    v.push("复审请求人".to_owned());
    v.push("无效请求人".to_owned());
    v.push("复审决定".to_owned());
    v.push("复审无效决定日".to_owned());
    v.push("复审无效法律依据".to_owned());
    v.push("转让次数".to_owned());
    v.push("转让执行日".to_owned());
    v.push("转让人".to_owned());
    v.push("受让人".to_owned());
    v.push("标准受让人".to_owned());
    v.push("许可次数".to_owned());
    proof {
        assert(str_views(v@) =~= str_views(old(v)@) + vocab_chunk_g());
    }
}

/// One span of the recognized column names, in canonical order.
pub open spec fn vocab_chunk_h() -> Seq<Seq<char>> {
    seq![
        "许可合同备案日期"@,
        "许可人"@,
        "被许可人"@,
        "当前被许可人"@,
        "许可类型"@,
        "质押次数"@,
        "质押期限"@,
        "出质人"@,
        "质权人"@,
        "当前质权人"@,
        "诉讼次数"@,
        "原告"@,
        "被告"@,
        "诉讼类型"@,
        "法庭"@,
        "海关备案"@,
        "复审决定日"@,
        "无效决定日"@,
        "口审日期"@,
        "法律事件"@,
    ]
}

/// Appends one span of the vocabulary.
#[verifier::rlimit(60)]
fn push_chunk_h(v: &mut Vec<String>)
    ensures
        str_views(final(v)@) == str_views(old(v)@) + vocab_chunk_h(),
{
    v.push("许可合同备案日期".to_owned());
    v.push("许可人".to_owned());
    v.push("被许可人".to_owned());
    v.push("当前被许可人".to_owned());
    v.push("许可类型".to_owned());
    v.push("质押次数".to_owned());
    v.push("质押期限".to_owned());
    v.push("出质人".to_owned());
    v.push("质权人".to_owned());
    v.push("当前质权人".to_owned());
    v.push("诉讼次数".to_owned());
    v.push("原告".to_owned());
    v.push("被告".to_owned());
    v.push("诉讼类型".to_owned());
    v.push("法庭".to_owned());
    v.push("海关备案".to_owned());
    v.push("复审决定日".to_owned());
    v.push("无效决定日".to_owned());
    v.push("口审日期".to_owned());
    v.push("法律事件".to_owned());
    proof {
        assert(str_views(v@) =~= str_views(old(v)@) + vocab_chunk_h());
    }
}

/// One span of the recognized column names, in canonical order.
pub open spec fn vocab_chunk_i() -> Seq<Seq<char>> {
    seq![
        "复审请求日"@,
        "小类名称"@,
        "中类代码"@,
        "中类名称"@,
        "大类代码"@,
        "大类名称"@,
    ]
}

/// Appends one span of the vocabulary.
#[verifier::rlimit(60)]
fn push_chunk_i(v: &mut Vec<String>)
    ensures
        str_views(final(v)@) == str_views(old(v)@) + vocab_chunk_i(),
{
    v.push("复审请求日".to_owned());
    v.push("小类名称".to_owned());
    v.push("中类代码".to_owned());
    v.push("中类名称".to_owned());
    v.push("大类代码".to_owned());
    v.push("大类名称".to_owned());
    proof {
        assert(str_views(v@) =~= str_views(old(v)@) + vocab_chunk_i());
    }
}

/// The recognized column names, in their canonical order.
pub open spec fn spec_system_columns() -> Seq<Seq<char>> {
    vocab_chunk_a() + vocab_chunk_b() + vocab_chunk_c() + vocab_chunk_d() + vocab_chunk_e() + vocab_chunk_f() + vocab_chunk_g() + vocab_chunk_h() + vocab_chunk_i()
}

/// Builds the reference vocabulary: exactly the recognized column
/// names, 166 of them, in their canonical order.
pub fn system_columns() -> (v: Vec<String>)
    ensures
        str_views(v@) == spec_system_columns(),
        v@.len() == 166,
{
    let mut v: Vec<String> = Vec::new();
    proof {
        assert(str_views(v@) =~= Seq::<Seq<char>>::empty());
    }
    push_chunk_a(&mut v);
    push_chunk_b(&mut v);
    push_chunk_c(&mut v);
    push_chunk_d(&mut v);
    push_chunk_e(&mut v);
    push_chunk_f(&mut v);
    push_chunk_g(&mut v);
    push_chunk_h(&mut v);
    push_chunk_i(&mut v);
    proof {
        assert(str_views(v@) =~= spec_system_columns());
    }
    v
}

} // verus!
