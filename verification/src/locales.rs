//! The message texts of the supported languages.
use vstd::prelude::*;

verus! {

/// A table of messages: each key with its text.
pub type Table = Seq<(Seq<char>, Seq<char>)>;

/// The views of the entries of a table.
pub open spec fn table_view(v: Seq<(&'static str, &'static str)>) -> Table {
    Seq::new(v.len(), |i: int| (v[i].0@, v[i].1@))
}

/// The English messages.
pub open spec fn en_table() -> Table {
    seq![
        ("command.available_commands"@, "Available commands ({0}):"@),
        ("command.connected"@, "🔗 Connected to 127.0.0.1:{0}"@),
        ("command.example"@, "Example: unity_pipeline_cli command editor_play"@),
        ("command.example_with_param"@, "Example: unity_pipeline_cli command {0} --{1} <value>"@),
        ("command.execute_failed"@, "❌ Command {0} failed"@),
        ("command.executed"@, "▶ Executed {0}"@),
        ("command.invalid_parameter"@, "Command {0} has no parameter named {1}"@),
        ("command.no_commands"@, "No commands are registered in the Editor."@),
        ("command.no_return_value"@, "(no return value)"@),
        ("command.parameter_docs"@, "Parameters:"@),
        ("command.parameters_line"@, "Parameters: {0}"@),
        ("command.project"@, "📁 Project: {0}"@),
        ("command.result_label"@, "Result:"@),
        ("command.result_line"@, "Result: {0}"@),
        ("command.server_version"@, "Server version {0}, port {1}"@),
        ("command.success"@, "✅ Success"@),
        ("command.usage"@, "Usage: unity_pipeline_cli command <name> [--<param> <value>]..."@),
        ("configure.hint_multi_project_ambiguous"@, "  With several Editors running, startup fails because the target is ambiguous."@),
        ("configure.hint_not_pinned"@, "This entry is not pinned to a project:"@),
        ("configure.hint_other_projects_1"@, "For other projects, add one mcpServers entry per project"@),
        ("configure.hint_other_projects_2"@, "and give each its own --project-path."@),
        ("configure.hint_per_project_entry"@, "  Use one mcpServers entry per project."@),
        ("configure.hint_pinned"@, "This entry is pinned to the project above."@),
        ("configure.hint_project_path_arg"@, "  To pin a project, append its absolute path to args:"@),
        ("configure.hint_single_editor"@, "  With exactly one reachable Editor it connects automatically."@),
        ("language.current"@, "Current language: {0}"@),
        ("language.invalid"@, "Unsupported language: {0} (available: {1})"@),
        ("language.no_config_dir"@, "Cannot determine the configuration directory"@),
        ("language.switched"@, "Language set to {0}"@),
        ("projects.found_editors"@, "Found {0} running Unity Editor(s):"@),
        ("projects.hint_install"@, "   Install it with: {0} install"@),
        ("projects.hint_open_project"@, "Open a project in the Unity Editor and try again."@),
        ("projects.no_open_projects"@, "No Unity projects are open."@),
        ("projects.path"@, "   Path: {0}"@),
        ("projects.pipeline_installed"@, "   Pipeline package: installed{0}"@),
        ("projects.pipeline_not_installed"@, "   Pipeline package: not installed"@),
        ("projects.server_info"@, "   Note: {0}"@),
        ("projects.server_line"@, "   Server: {0} (port {1}){2}"@),
        ("projects.server_not_started"@, "   Server: not started"@),
        ("projects.state_connected"@, "connected"@),
        ("projects.state_unreachable"@, "unreachable"@),
        ("projects.unknown_version"@, "unknown"@),
        ("upgrade.already_latest"@, "Already up to date ({0})."@),
        ("upgrade.ambiguous_extracted_file"@, "Expected exactly one file in the archive, found {0}; {1} was left untouched"@),
        ("upgrade.cancelled"@, "Cancelled; staying on {0}."@),
        ("upgrade.checking_release"@, "Checking for a new release..."@),
        ("upgrade.clean_tmp_dir_failed"@, "Failed to clean the temporary directory {0}"@),
        ("upgrade.confirm_update"@, "Update to {0}? [y/N] "@),
        ("upgrade.create_extract_dir_failed"@, "Failed to create the extraction directory {0}"@),
        ("upgrade.create_tmp_dir_failed"@, "Failed to create the temporary directory {0}"@),
        ("upgrade.download_failed"@, "Failed to download {0}"@),
        ("upgrade.downloading"@, "Downloading {0}..."@),
        ("upgrade.extracting"@, "Extracting..."@),
        ("upgrade.found_new_version"@, "New version available: {0} -> {1}"@),
        ("upgrade.locate_current_exe_failed"@, "Failed to locate the running executable"@),
        ("upgrade.no_platform_asset"@, "Release {0} has no asset for {1} (available: {2})"@),
        ("upgrade.parse_current_version_failed"@, "Failed to parse the current version {0}"@),
        ("upgrade.parse_release_json_failed"@, "Failed to parse the release information from {0}"@),
        ("upgrade.parse_tag_failed"@, "Failed to parse the release tag {0}"@),
        ("upgrade.place_new_exe_failed"@, "Failed to move {0} to {1}"@),
        ("upgrade.read_dir_failed"@, "Failed to read the directory {0}"@),
        ("upgrade.read_input_failed"@, "Failed to read the input"@),
        ("upgrade.release_api_request_failed"@, "Failed to query the latest release"@),
        ("upgrade.rename_current_exe_failed"@, "Failed to rename {0} to {1}"@),
        ("upgrade.set_exec_permission_failed"@, "Failed to make {0} executable"@),
        ("upgrade.unknown_exe_dir"@, "Cannot determine the directory of the running executable"@),
        ("upgrade.unknown_exe_name"@, "Cannot determine the name of the running executable"@),
        ("upgrade.updated"@, "Updated to {0}."@),
    ]
}

/// The English messages.
pub fn en_entries() -> (r: Vec<(&'static str, &'static str)>)
    ensures
        table_view(r@) == en_table(),
{
    let v: Vec<(&'static str, &'static str)> = vec![
        ("command.available_commands", "Available commands ({0}):"),
        ("command.connected", "🔗 Connected to 127.0.0.1:{0}"),
        ("command.example", "Example: unity_pipeline_cli command editor_play"),
        ("command.example_with_param", "Example: unity_pipeline_cli command {0} --{1} <value>"),
        ("command.execute_failed", "❌ Command {0} failed"),
        ("command.executed", "▶ Executed {0}"),
        ("command.invalid_parameter", "Command {0} has no parameter named {1}"),
        ("command.no_commands", "No commands are registered in the Editor."),
        ("command.no_return_value", "(no return value)"),
        ("command.parameter_docs", "Parameters:"),
        ("command.parameters_line", "Parameters: {0}"),
        ("command.project", "📁 Project: {0}"),
        ("command.result_label", "Result:"),
        ("command.result_line", "Result: {0}"),
        ("command.server_version", "Server version {0}, port {1}"),
        ("command.success", "✅ Success"),
        ("command.usage", "Usage: unity_pipeline_cli command <name> [--<param> <value>]..."),
        ("configure.hint_multi_project_ambiguous", "  With several Editors running, startup fails because the target is ambiguous."),
        ("configure.hint_not_pinned", "This entry is not pinned to a project:"),
        ("configure.hint_other_projects_1", "For other projects, add one mcpServers entry per project"),
        ("configure.hint_other_projects_2", "and give each its own --project-path."),
        ("configure.hint_per_project_entry", "  Use one mcpServers entry per project."),
        ("configure.hint_pinned", "This entry is pinned to the project above."),
        ("configure.hint_project_path_arg", "  To pin a project, append its absolute path to args:"),
        ("configure.hint_single_editor", "  With exactly one reachable Editor it connects automatically."),
        ("language.current", "Current language: {0}"),
        ("language.invalid", "Unsupported language: {0} (available: {1})"),
        ("language.no_config_dir", "Cannot determine the configuration directory"),
        ("language.switched", "Language set to {0}"),
        ("projects.found_editors", "Found {0} running Unity Editor(s):"),
        ("projects.hint_install", "   Install it with: {0} install"),
        ("projects.hint_open_project", "Open a project in the Unity Editor and try again."),
        ("projects.no_open_projects", "No Unity projects are open."),
        ("projects.path", "   Path: {0}"),
        ("projects.pipeline_installed", "   Pipeline package: installed{0}"),
        ("projects.pipeline_not_installed", "   Pipeline package: not installed"),
        ("projects.server_info", "   Note: {0}"),
        ("projects.server_line", "   Server: {0} (port {1}){2}"),
        ("projects.server_not_started", "   Server: not started"),
        ("projects.state_connected", "connected"),
        ("projects.state_unreachable", "unreachable"),
        ("projects.unknown_version", "unknown"),
        ("upgrade.already_latest", "Already up to date ({0})."),
        ("upgrade.ambiguous_extracted_file", "Expected exactly one file in the archive, found {0}; {1} was left untouched"),
        ("upgrade.cancelled", "Cancelled; staying on {0}."),
        ("upgrade.checking_release", "Checking for a new release..."),
        ("upgrade.clean_tmp_dir_failed", "Failed to clean the temporary directory {0}"),
        ("upgrade.confirm_update", "Update to {0}? [y/N] "),
        ("upgrade.create_extract_dir_failed", "Failed to create the extraction directory {0}"),
        ("upgrade.create_tmp_dir_failed", "Failed to create the temporary directory {0}"),
        ("upgrade.download_failed", "Failed to download {0}"),
        ("upgrade.downloading", "Downloading {0}..."),
        ("upgrade.extracting", "Extracting..."),
        ("upgrade.found_new_version", "New version available: {0} -> {1}"),
        ("upgrade.locate_current_exe_failed", "Failed to locate the running executable"),
        ("upgrade.no_platform_asset", "Release {0} has no asset for {1} (available: {2})"),
        ("upgrade.parse_current_version_failed", "Failed to parse the current version {0}"),
        ("upgrade.parse_release_json_failed", "Failed to parse the release information from {0}"),
        ("upgrade.parse_tag_failed", "Failed to parse the release tag {0}"),
        ("upgrade.place_new_exe_failed", "Failed to move {0} to {1}"),
        ("upgrade.read_dir_failed", "Failed to read the directory {0}"),
        ("upgrade.read_input_failed", "Failed to read the input"),
        ("upgrade.release_api_request_failed", "Failed to query the latest release"),
        ("upgrade.rename_current_exe_failed", "Failed to rename {0} to {1}"),
        ("upgrade.set_exec_permission_failed", "Failed to make {0} executable"),
        ("upgrade.unknown_exe_dir", "Cannot determine the directory of the running executable"),
        ("upgrade.unknown_exe_name", "Cannot determine the name of the running executable"),
        ("upgrade.updated", "Updated to {0}."),
    ];
    assert(table_view(v@) =~= en_table());
    v
}

/// The Chinese messages.
pub open spec fn zh_table() -> Table {
    seq![
        ("command.available_commands"@, "可用指令（{0}）："@),
        ("command.connected"@, "🔗 已连接 127.0.0.1:{0}"@),
        ("command.example"@, "示例：unity_pipeline_cli command editor_play"@),
        ("command.example_with_param"@, "示例：unity_pipeline_cli command {0} --{1} <值>"@),
        ("command.execute_failed"@, "❌ 指令 {0} 执行失败"@),
        ("command.executed"@, "▶ 已执行 {0}"@),
        ("command.invalid_parameter"@, "指令 {0} 没有名为 {1} 的参数"@),
        ("command.no_commands"@, "Editor 内没有注册任何指令。"@),
        ("command.no_return_value"@, "（无返回值）"@),
        ("command.parameter_docs"@, "参数说明："@),
        ("command.parameters_line"@, "参数：{0}"@),
        ("command.project"@, "📁 项目：{0}"@),
        ("command.result_label"@, "结果："@),
        ("command.result_line"@, "结果：{0}"@),
        ("command.server_version"@, "服务版本 {0}，端口 {1}"@),
        ("command.success"@, "✅ 成功"@),
        ("command.usage"@, "用法：unity_pipeline_cli command <指令名> [--<参数> <值>]..."@),
        ("configure.hint_multi_project_ambiguous"@, "  多个 Editor 并存时会因歧义启动失败。"@),
        ("configure.hint_not_pinned"@, "该条目未绑定具体项目："@),
        ("configure.hint_other_projects_1"@, "其他项目请各自添加一条 mcpServers 条目"@),
        ("configure.hint_other_projects_2"@, "并分别设置 --project-path。"@),
        ("configure.hint_per_project_entry"@, "  每个项目一条 mcpServers 条目。"@),
        ("configure.hint_pinned"@, "该条目已绑定上述项目。"@),
        ("configure.hint_project_path_arg"@, "  如需绑定项目，请在 args 中追加其绝对路径："@),
        ("configure.hint_single_editor"@, "  恰好 1 个可用 Editor 时会自动连接。"@),
        ("language.current"@, "当前语言：{0}"@),
        ("language.invalid"@, "不支持的语言：{0}（可用：{1}）"@),
        ("language.no_config_dir"@, "无法确定配置目录"@),
        ("language.switched"@, "语言已切换为 {0}"@),
        ("projects.found_editors"@, "发现 {0} 个运行中的 Unity Editor："@),
        ("projects.hint_install"@, "   安装命令：{0} install"@),
        ("projects.hint_open_project"@, "请在 Unity Editor 中打开项目后重试。"@),
        ("projects.no_open_projects"@, "没有打开的 Unity 项目。"@),
        ("projects.path"@, "   路径：{0}"@),
        ("projects.pipeline_installed"@, "   Pipeline 包：已安装{0}"@),
        ("projects.pipeline_not_installed"@, "   Pipeline 包：未安装"@),
        ("projects.server_info"@, "   提示：{0}"@),
        ("projects.server_line"@, "   服务：{0}（端口 {1}）{2}"@),
        ("projects.server_not_started"@, "   服务：未启动"@),
        ("projects.state_connected"@, "已连接"@),
        ("projects.state_unreachable"@, "不可达"@),
        ("projects.unknown_version"@, "未知"@),
        ("upgrade.already_latest"@, "已是最新版本（{0}）。"@),
        ("upgrade.ambiguous_extracted_file"@, "压缩包内应恰好有一个文件，实际 {0} 个；{1} 未改动"@),
        ("upgrade.cancelled"@, "已取消，保持 {0}。"@),
        ("upgrade.checking_release"@, "正在检查新版本……"@),
        ("upgrade.clean_tmp_dir_failed"@, "清理临时目录 {0} 失败"@),
        ("upgrade.confirm_update"@, "更新到 {0}？[y/N] "@),
        ("upgrade.create_extract_dir_failed"@, "创建解压目录 {0} 失败"@),
        ("upgrade.create_tmp_dir_failed"@, "创建临时目录 {0} 失败"@),
        ("upgrade.download_failed"@, "下载 {0} 失败"@),
        ("upgrade.downloading"@, "正在下载 {0}……"@),
        ("upgrade.extracting"@, "正在解压……"@),
        ("upgrade.found_new_version"@, "发现新版本：{0} -> {1}"@),
        ("upgrade.locate_current_exe_failed"@, "定位当前可执行文件失败"@),
        ("upgrade.no_platform_asset"@, "版本 {0} 没有适用于 {1} 的资产（可用：{2}）"@),
        ("upgrade.parse_current_version_failed"@, "解析当前版本 {0} 失败"@),
        ("upgrade.parse_release_json_failed"@, "解析 {0} 返回的版本信息失败"@),
        ("upgrade.parse_tag_failed"@, "解析版本标签 {0} 失败"@),
        ("upgrade.place_new_exe_failed"@, "将 {0} 移动到 {1} 失败"@),
        ("upgrade.read_dir_failed"@, "读取目录 {0} 失败"@),
        ("upgrade.read_input_failed"@, "读取输入失败"@),
        ("upgrade.release_api_request_failed"@, "查询最新版本失败"@),
        ("upgrade.rename_current_exe_failed"@, "将 {0} 重命名为 {1} 失败"@),
        ("upgrade.set_exec_permission_failed"@, "设置 {0} 的可执行权限失败"@),
        ("upgrade.unknown_exe_dir"@, "无法确定当前可执行文件所在目录"@),
        ("upgrade.unknown_exe_name"@, "无法确定当前可执行文件的名称"@),
        ("upgrade.updated"@, "已更新到 {0}。"@),
    ]
}

/// The Chinese messages.
pub fn zh_entries() -> (r: Vec<(&'static str, &'static str)>)
    ensures
        table_view(r@) == zh_table(),
{
    let v: Vec<(&'static str, &'static str)> = vec![
        ("command.available_commands", "可用指令（{0}）："),
        ("command.connected", "🔗 已连接 127.0.0.1:{0}"),
        ("command.example", "示例：unity_pipeline_cli command editor_play"),
        ("command.example_with_param", "示例：unity_pipeline_cli command {0} --{1} <值>"),
        ("command.execute_failed", "❌ 指令 {0} 执行失败"),
        ("command.executed", "▶ 已执行 {0}"),
        ("command.invalid_parameter", "指令 {0} 没有名为 {1} 的参数"),
        ("command.no_commands", "Editor 内没有注册任何指令。"),
        ("command.no_return_value", "（无返回值）"),
        ("command.parameter_docs", "参数说明："),
        ("command.parameters_line", "参数：{0}"),
        ("command.project", "📁 项目：{0}"),
        ("command.result_label", "结果："),
        ("command.result_line", "结果：{0}"),
        ("command.server_version", "服务版本 {0}，端口 {1}"),
        ("command.success", "✅ 成功"),
        ("command.usage", "用法：unity_pipeline_cli command <指令名> [--<参数> <值>]..."),
        ("configure.hint_multi_project_ambiguous", "  多个 Editor 并存时会因歧义启动失败。"),
        ("configure.hint_not_pinned", "该条目未绑定具体项目："),
        ("configure.hint_other_projects_1", "其他项目请各自添加一条 mcpServers 条目"),
        ("configure.hint_other_projects_2", "并分别设置 --project-path。"),
        ("configure.hint_per_project_entry", "  每个项目一条 mcpServers 条目。"),
        ("configure.hint_pinned", "该条目已绑定上述项目。"),
        ("configure.hint_project_path_arg", "  如需绑定项目，请在 args 中追加其绝对路径："),
        ("configure.hint_single_editor", "  恰好 1 个可用 Editor 时会自动连接。"),
        ("language.current", "当前语言：{0}"),
        ("language.invalid", "不支持的语言：{0}（可用：{1}）"),
        ("language.no_config_dir", "无法确定配置目录"),
        ("language.switched", "语言已切换为 {0}"),
        ("projects.found_editors", "发现 {0} 个运行中的 Unity Editor："),
        ("projects.hint_install", "   安装命令：{0} install"),
        ("projects.hint_open_project", "请在 Unity Editor 中打开项目后重试。"),
        ("projects.no_open_projects", "没有打开的 Unity 项目。"),
        ("projects.path", "   路径：{0}"),
        ("projects.pipeline_installed", "   Pipeline 包：已安装{0}"),
        ("projects.pipeline_not_installed", "   Pipeline 包：未安装"),
        ("projects.server_info", "   提示：{0}"),
        ("projects.server_line", "   服务：{0}（端口 {1}）{2}"),
        ("projects.server_not_started", "   服务：未启动"),
        ("projects.state_connected", "已连接"),
        ("projects.state_unreachable", "不可达"),
        ("projects.unknown_version", "未知"),
        ("upgrade.already_latest", "已是最新版本（{0}）。"),
        ("upgrade.ambiguous_extracted_file", "压缩包内应恰好有一个文件，实际 {0} 个；{1} 未改动"),
        ("upgrade.cancelled", "已取消，保持 {0}。"),
        ("upgrade.checking_release", "正在检查新版本……"),
        ("upgrade.clean_tmp_dir_failed", "清理临时目录 {0} 失败"),
        ("upgrade.confirm_update", "更新到 {0}？[y/N] "),
        ("upgrade.create_extract_dir_failed", "创建解压目录 {0} 失败"),
        ("upgrade.create_tmp_dir_failed", "创建临时目录 {0} 失败"),
        ("upgrade.download_failed", "下载 {0} 失败"),
        ("upgrade.downloading", "正在下载 {0}……"),
        ("upgrade.extracting", "正在解压……"),
        ("upgrade.found_new_version", "发现新版本：{0} -> {1}"),
        ("upgrade.locate_current_exe_failed", "定位当前可执行文件失败"),
        ("upgrade.no_platform_asset", "版本 {0} 没有适用于 {1} 的资产（可用：{2}）"),
        ("upgrade.parse_current_version_failed", "解析当前版本 {0} 失败"),
        ("upgrade.parse_release_json_failed", "解析 {0} 返回的版本信息失败"),
        ("upgrade.parse_tag_failed", "解析版本标签 {0} 失败"),
        ("upgrade.place_new_exe_failed", "将 {0} 移动到 {1} 失败"),
        ("upgrade.read_dir_failed", "读取目录 {0} 失败"),
        ("upgrade.read_input_failed", "读取输入失败"),
        ("upgrade.release_api_request_failed", "查询最新版本失败"),
        ("upgrade.rename_current_exe_failed", "将 {0} 重命名为 {1} 失败"),
        ("upgrade.set_exec_permission_failed", "设置 {0} 的可执行权限失败"),
        ("upgrade.unknown_exe_dir", "无法确定当前可执行文件所在目录"),
        ("upgrade.unknown_exe_name", "无法确定当前可执行文件的名称"),
        ("upgrade.updated", "已更新到 {0}。"),
    ];
    assert(table_view(v@) =~= zh_table());
    v
}

/// The English and the Chinese table have the same keys, in the same order.
pub proof fn locales_have_the_same_keys()
    ensures
        en_table().len() == zh_table().len(),
        forall|i: int| 0 <= i < en_table().len() ==> (#[trigger] en_table()[i]).0 == zh_table()[i].0,
{
}

} // verus!
