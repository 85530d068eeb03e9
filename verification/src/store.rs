//! The file of the configuration: what is read from it, and what is written to it.
use vstd::prelude::*;

use crate::config;
use crate::config::{AppConfig, ConfigError};
use crate::text;

verus! {

/// The comment that stands at the head of the file.
pub open spec fn header() -> Seq<char> {
    "# warp-keeper 配置文件\n"@ + ("# 说明：\n"@ + (
    "# 1) 客户端识别顺序固定：warp-official -> warp-wg -> warp-go\n"@ + (
    "# 2) 识别命令内置，不开放配置修改\n"@ + (
    "# 3) detect 会把识别到客户端对应的命令写入 reconnect.commands\n"@ + (
    "# 4) 主检测与重连后检测都使用 method 抽象（ping/tcp/http）\n"@ + "\n"@)))))
}

/// The text of the file, from the configuration in its written form: the comment, then that form.
pub fn render_config(body: &str) -> (r: String)
    ensures
        r@ == header() + body@,
{
    let mut r: String = "# warp-keeper 配置文件\n".to_owned();
    r.append("# 说明：\n");
    r.append("# 1) 客户端识别顺序固定：warp-official -> warp-wg -> warp-go\n");
    r.append("# 2) 识别命令内置，不开放配置修改\n");
    r.append("# 3) detect 会把识别到客户端对应的命令写入 reconnect.commands\n");
    r.append("# 4) 主检测与重连后检测都使用 method 抽象（ping/tcp/http）\n");
    r.append("\n");
    assert(r@ =~= header());
    r.append(body);
    r
}

/// What comes of reading a file that tells of a configuration: that configuration, where it is
/// valid; else its fault.
pub open spec fn reading(c: config::AppConfigView) -> Result<
    config::AppConfigView,
    config::ConfigErrorView,
> {
    match config::config_fault(c) {
        None => Ok(c),
        Some(e) => Err(e),
    }
}

/// What comes of writing a configuration whose written form is `body`: the text of the file, where
/// the configuration is valid; else its fault.
pub open spec fn writing(c: config::AppConfigView, body: Seq<char>) -> Result<
    Seq<char>,
    config::ConfigErrorView,
> {
    match config::config_fault(c) {
        None => Ok(header() + body),
        Some(e) => Err(e),
    }
}

/// What the result of `read_config` holds.
pub open spec fn read_view(r: Result<AppConfig, ConfigError>) -> Result<
    config::AppConfigView,
    config::ConfigErrorView,
> {
    match r {
        Ok(c) => Ok(c@),
        Err(e) => Err(e@),
    }
}

/// What the result of `write_config` holds.
pub open spec fn written_view(r: Result<String, ConfigError>) -> Result<
    Seq<char>,
    config::ConfigErrorView,
> {
    match r {
        Ok(file) => Ok(file@),
        Err(e) => Err(e@),
    }
}

/// The configuration that was read from the file, where it is valid.
pub fn read_config(parsed: AppConfig) -> (r: Result<AppConfig, ConfigError>)
    ensures
        read_view(r) == reading(parsed@),
        r matches Ok(c) ==> c == parsed,
        r is Ok <==> parsed@.valid(),
{
    match parsed.validate() {
        Ok(_) => Ok(parsed),
        Err(e) => Err(e),
    }
}

/// The text to write to the file for a configuration, given in its written form too, where it is
/// valid.
pub fn write_config(config: &AppConfig, body: &str) -> (r: Result<String, ConfigError>)
    ensures
        written_view(r) == writing(config@, body@),
        r is Ok <==> config@.valid(),
{
    match config.validate() {
        Ok(_) => Ok(render_config(body)),
        Err(e) => Err(e),
    }
}

/// Where a configuration comes from.
#[derive(Debug, Clone)]
pub enum LoadedConfig {
    /// It was read from the file.
    Read(AppConfig),
    /// There was no file: it is the default, and is to be written.
    Created(AppConfig),
}

/// What a `LoadedConfig` holds.
pub enum LoadedConfigView {
    Read(config::AppConfigView),
    Created(config::AppConfigView),
}

impl View for LoadedConfig {
    type V = LoadedConfigView;

    open spec fn view(&self) -> LoadedConfigView {
        match self {
            LoadedConfig::Read(c) => LoadedConfigView::Read(c@),
            LoadedConfig::Created(c) => LoadedConfigView::Created(c@),
        }
    }
}

/// What comes of loading the configuration: what the file tells, where there is one; else the
/// default, to be written.
pub open spec fn loading(existing: Option<config::AppConfigView>) -> Result<
    LoadedConfigView,
    config::ConfigErrorView,
> {
    match existing {
        Some(parsed) => match reading(parsed) {
            Ok(c) => Ok(LoadedConfigView::Read(c)),
            Err(e) => Err(e),
        },
        None => Ok(LoadedConfigView::Created(config::default_config())),
    }
}

/// What a configuration that was read from a file, if any, holds.
pub open spec fn existing_view(existing: Option<AppConfig>) -> Option<config::AppConfigView> {
    match existing {
        Some(c) => Some(c@),
        None => None,
    }
}

/// What the result of `load_or_create_config` holds.
pub open spec fn loaded_view(r: Result<LoadedConfig, ConfigError>) -> Result<
    LoadedConfigView,
    config::ConfigErrorView,
> {
    match r {
        Ok(loaded) => Ok(loaded@),
        Err(e) => Err(e@),
    }
}

/// The configuration in the file, where there is a file (`existing` is what was read from it);
/// else the default, to be written.
pub fn load_or_create_config(existing: Option<AppConfig>) -> (r: Result<
    LoadedConfig,
    ConfigError,
>)
    ensures
        loaded_view(r) == loading(existing_view(existing)),
        r is Ok && existing is Some ==> r->Ok_0 == LoadedConfig::Read(existing->0),
        r is Ok <==> (existing is Some ==> existing->0@.valid()),
{
    match existing {
        Some(parsed) => match read_config(parsed) {
            Ok(c) => Ok(LoadedConfig::Read(c)),
            Err(e) => Err(e),
        },
        None => Ok(LoadedConfig::Created(AppConfig::default())),
    }
}

/// A file is there already and is not to be replaced.
#[derive(Debug, Clone, PartialEq, Eq)]
pub struct ConfigExists {
    pub path: String,
}

impl ConfigExists {
    /// The text that tells a user of the error.
    pub fn message(&self) -> (r: String)
        ensures
            r@ == "配置文件已存在: "@ + self.path@ + "（如需覆盖请使用 --force）"@,
    {
        let mut s: String = "配置文件已存在: ".to_owned();
        s.append(self.path.as_str());
        s.append("（如需覆盖请使用 --force）");
        s
    }
}

/// The configuration to write to the file at `path`: the default, unless a file is there and is
/// not to be replaced (`force`).
pub fn init_config(path: &str, exists: bool, force: bool) -> (r: Result<AppConfig, ConfigExists>)
    ensures
        match r {
            Ok(c) => !(exists && !force) && c@ == config::default_config(),
            Err(e) => exists && !force && e.path@ == path@,
        },
{
    if exists && !force {
        return Err(ConfigExists { path: path.to_owned() });
    }
    Ok(AppConfig::default())
}

/// The line is a comment or empty.
pub open spec fn is_comment(line: Seq<char>) -> bool {
    line.len() == 0 || line[0] == '#'
}

/// Lines in front of a text: the lines, then those of the text.
proof fn lemma_line_in_front(line: Seq<char>, rest: Seq<char>)
    requires
        line.len() > 0,
        line.last() == '\n',
        forall|i: int| 0 <= i < line.len() - 1 ==> line[i] != '\n' && line[i] != '\r',
    ensures
        text::lines(line + rest) == seq![line.drop_last()] + text::lines(rest),
{
    let s = line + rest;
    text::lemma_before_is(s, '\n', line.len() - 1);
    assert(s.take(line.len() - 1) =~= line.drop_last());
    assert(s.skip(line.len() as int) =~= rest);
}

/// The lines of the file are comments and empty lines, seven in all, and behind them the lines of
/// the configuration in its written form.
pub proof fn file_is_comments_and_form(body: Seq<char>)
    ensures
        text::lines(header() + body).len() == 7 + text::lines(body).len(),
        text::lines(header() + body).skip(7) == text::lines(body),
        forall|i: int| 0 <= i < 7 ==> is_comment(#[trigger] text::lines(header() + body)[i]),
{
    let a = "# warp-keeper 配置文件\n"@;
    let b = "# 说明：\n"@;
    let c = "# 1) 客户端识别顺序固定：warp-official -> warp-wg -> warp-go\n"@;
    let d = "# 2) 识别命令内置，不开放配置修改\n"@;
    let e = "# 3) detect 会把识别到客户端对应的命令写入 reconnect.commands\n"@;
    let f = "# 4) 主检测与重连后检测都使用 method 抽象（ping/tcp/http）\n"@;
    let g = "\n"@;
    reveal_strlit("# warp-keeper 配置文件\n");
    reveal_strlit("# 说明：\n");
    reveal_strlit("# 1) 客户端识别顺序固定：warp-official -> warp-wg -> warp-go\n");
    reveal_strlit("# 2) 识别命令内置，不开放配置修改\n");
    reveal_strlit("# 3) detect 会把识别到客户端对应的命令写入 reconnect.commands\n");
    reveal_strlit("# 4) 主检测与重连后检测都使用 method 抽象（ping/tcp/http）\n");
    reveal_strlit("\n");
    let g1 = g + body;
    let f1 = f + g1;
    let e1 = e + f1;
    let d1 = d + e1;
    let c1 = c + d1;
    let b1 = b + c1;
    assert(header() + body =~= a + b1);
    lemma_line_in_front(a, b1);
    lemma_line_in_front(b, c1);
    lemma_line_in_front(c, d1);
    lemma_line_in_front(d, e1);
    lemma_line_in_front(e, f1);
    lemma_line_in_front(f, g1);
    lemma_line_in_front(g, body);
    let head = seq![
        a.drop_last(),
        b.drop_last(),
        c.drop_last(),
        d.drop_last(),
        e.drop_last(),
        f.drop_last(),
        g.drop_last(),
    ];
    assert(text::lines(header() + body) =~= head + text::lines(body));
    assert(text::lines(header() + body).skip(7) =~= text::lines(body));
}

/// What was written is read back as it was, where `parse`, which tells the configuration that the
/// text of a file stands for, gives back what was written out as that text. Only what is valid is
/// ever written, and only what is valid is ever read.
pub proof fn written_config_reads_back(
    parse: spec_fn(Seq<char>) -> Option<config::AppConfigView>,
    c: config::AppConfigView,
    body: Seq<char>,
)
    requires
        writing(c, body) is Ok,
        parse(header() + body) == Some(c),
    ensures
        c.valid(),
        parse(writing(c, body)->Ok_0) == Some(c),
        reading(c) == Ok::<config::AppConfigView, config::ConfigErrorView>(c),
        loading(parse(writing(c, body)->Ok_0)) == Ok::<LoadedConfigView, config::ConfigErrorView>(
            LoadedConfigView::Read(c),
        ),
{
    config::valid_means_no_fault(c);
}

/// Only a valid configuration is read, whatever the file tells, and only a valid one is written,
/// whatever its form is: both refuse the same configurations, with the same fault.
pub proof fn only_valid_configs_pass(c: config::AppConfigView, body: Seq<char>)
    ensures
        reading(c) is Ok <==> c.valid(),
        writing(c, body) is Ok <==> c.valid(),
        reading(c) matches Err(e) ==> writing(c, body) == Err::<Seq<char>, _>(e),
{
    config::valid_means_no_fault(c);
}

/// Where there is no file, the default is created and can be written; a second load reads what the
/// first created and asks for nothing to be written, where `parse`, which tells the configuration
/// that the text of a file stands for, gives back what was written out as that text.
pub proof fn created_config_is_read_next(
    parse: spec_fn(Seq<char>) -> Option<config::AppConfigView>,
    body: Seq<char>,
)
    requires
        parse(header() + body) == Some(config::default_config()),
    ensures
        loading(None) == Ok::<LoadedConfigView, config::ConfigErrorView>(
            LoadedConfigView::Created(config::default_config()),
        ),
        writing(config::default_config(), body) == Ok::<Seq<char>, config::ConfigErrorView>(
            header() + body,
        ),
        loading(parse(header() + body)) == Ok::<LoadedConfigView, config::ConfigErrorView>(
            LoadedConfigView::Read(config::default_config()),
        ),
{
    config::default_config_is_valid();
    config::valid_means_no_fault(config::default_config());
}

/// What stands at the head of the file, line by line.
pub proof fn header_reads()
    ensures
        header() == "# warp-keeper 配置文件\n"@ + "# 说明：\n"@
            + "# 1) 客户端识别顺序固定：warp-official -> warp-wg -> warp-go\n"@
            + "# 2) 识别命令内置，不开放配置修改\n"@
            + "# 3) detect 会把识别到客户端对应的命令写入 reconnect.commands\n"@
            + "# 4) 主检测与重连后检测都使用 method 抽象（ping/tcp/http）\n"@ + "\n"@,
{
    assert(header() =~= "# warp-keeper 配置文件\n"@ + "# 说明：\n"@
        + "# 1) 客户端识别顺序固定：warp-official -> warp-wg -> warp-go\n"@
        + "# 2) 识别命令内置，不开放配置修改\n"@
        + "# 3) detect 会把识别到客户端对应的命令写入 reconnect.commands\n"@
        + "# 4) 主检测与重连后检测都使用 method 抽象（ping/tcp/http）\n"@ + "\n"@);
}

/// A valid configuration is read, loaded and written as it is, its form behind the head of the
/// file; one that is not is refused with its fault, and the fault stops all three alike.
pub proof fn valid_configs_pass_unchanged(c: config::AppConfigView, body: Seq<char>)
    ensures
        c.valid() ==> {
            &&& reading(c) == Ok::<config::AppConfigView, config::ConfigErrorView>(c)
            &&& loading(Some(c)) == Ok::<LoadedConfigView, config::ConfigErrorView>(
                LoadedConfigView::Read(c),
            )
            &&& writing(c, body) == Ok::<Seq<char>, config::ConfigErrorView>(header() + body)
        },
        config::config_fault(c) matches Some(e) ==> {
            &&& reading(c) == Err::<config::AppConfigView, config::ConfigErrorView>(e)
            &&& loading(Some(c)) == Err::<LoadedConfigView, config::ConfigErrorView>(e)
            &&& writing(c, body) == Err::<Seq<char>, config::ConfigErrorView>(e)
        },
        loading(None) == Ok::<LoadedConfigView, config::ConfigErrorView>(
            LoadedConfigView::Created(config::default_config()),
        ),
{
    config::valid_means_no_fault(c);
}

/// What is read, written and loaded holds what it is made of.
pub proof fn stored_values_hold_their_parts(c: AppConfig, file: String, e: ConfigError)
    ensures
        read_view(Ok(c)) == Ok::<config::AppConfigView, config::ConfigErrorView>(c@),
        read_view(Err(e)) == Err::<config::AppConfigView, config::ConfigErrorView>(e@),
        written_view(Ok(file)) == Ok::<Seq<char>, config::ConfigErrorView>(file@),
        written_view(Err(e)) == Err::<Seq<char>, config::ConfigErrorView>(e@),
        loaded_view(Ok(LoadedConfig::Read(c))) == Ok::<LoadedConfigView, config::ConfigErrorView>(
            LoadedConfigView::Read(c@),
        ),
        loaded_view(Ok(LoadedConfig::Created(c))) == Ok::<
            LoadedConfigView,
            config::ConfigErrorView,
        >(LoadedConfigView::Created(c@)),
        loaded_view(Err(e)) == Err::<LoadedConfigView, config::ConfigErrorView>(e@),
        existing_view(Some(c)) == Some(c@),
        existing_view(None) is None,
{
}

} // verus!
