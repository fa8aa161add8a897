use resender::markdown::{document, fragment, gfm_options, to_fragment, to_html, EMAIL_CSS};

#[test]
fn headings_and_emphasis_render() {
    let html = to_html("# t\n\n**b** and `code`");
    assert!(html.contains("<h1"), "should render h1, got: {html}");
    assert!(html.contains("<strong"), "should render bold, got: {html}");
    assert!(html.contains("<code"), "should render inline code, got: {html}");
}

#[test]
fn gfm_table_renders() {
    let html = to_html("| 项目 | 数量 |\n| --- | --- |\n| 邮件 | 12 |");
    assert!(html.contains("<table"), "GFM 表格应被渲染");
    assert!(html.contains("<th"), "表头应被渲染");
}

#[test]
fn html_is_escaped_not_passthrough() {
    let html = to_html("<script>alert(1)</script>");
    assert!(!html.contains("<script>"), "脚本标签应被转义，不应原样保留");
}

#[test]
fn styles_are_inlined() {
    let html = to_html("正文内容");
    assert!(
        html.contains("max-width") && html.contains("640px"),
        "容器样式应被内联到 style 属性，got: {html}"
    );
}

#[test]
fn realistic_email_renders_all_blocks() {
    let md = "# 月度报表

你好，**张三**：

| 指标 | 数值 |
| --- | --- |
| 发送量 | 1234 |

- [x] 已完成
- [ ] 待处理

> 数据截至昨日。

详见 [控制台](https://example.com)。

```
cargo build --release
```
";
    let html = to_html(md);
    for tag in ["<h1", "<strong", "<table", "<th", "<blockquote", "<pre", "<a ", "<li"] {
        assert!(html.contains(tag), "应渲染 {tag}，got: {html}");
    }
    assert!(html.contains("style="), "样式必须内联，got: {html}");
    assert!(html.contains("checkbox"), "任务列表应渲染复选框");
}

#[test]
fn fragment_has_no_html_frame() {
    let f = to_fragment("**b**");
    assert!(f.contains("<strong"));
    assert!(!f.contains("<!DOCTYPE"));
    assert!(f.contains("style="));
}

#[test]
fn frames_hold_the_style_sheet_and_body() {
    let d = document("<p>x</p>");
    assert!(d.starts_with("<!DOCTYPE html>\n<html lang=\"zh-CN\">"));
    assert!(d.contains(EMAIL_CSS));
    assert!(d.ends_with("<div class=\"container\">\n<p>x</p>\n</div>\n</body>\n</html>\n"));
    let f = fragment("<p>y</p>");
    assert!(f.starts_with("<style>\n"));
    assert!(f.ends_with("<div class=\"container\">\n<p>y</p>\n</div>"));
}

#[test]
fn mail_bodies_use_the_gfm_extensions() {
    let o = gfm_options();
    assert!(o.table && o.strikethrough && o.tasklist && o.autolink);
    assert!(to_html("~~gone~~").contains("<del"));
}
