//! What each error code means and how to repair it.

use vstd::prelude::*;

verus! {

/// Explains `H001`.
pub const TYPE_MISMATCH: &'static str = "类型冲突：期望某种类型，实际得到另一种。Hone 为静态强类型，禁止隐式转换。\n  修复：显式转换（to_int / to_str / to_float），或修正变量声明类型。";

/// Explains `H002`.
pub const UNDEFINED: &'static str = "未定义的变量或函数。\n  修复：先声明变量，或确认函数名（含模块前缀，如 time.now）拼写正确。";

/// Explains `H003`.
pub const CANNOT_INFER: &'static str = "无法自动推导类型。\n  修复：为该变量添加显式类型注解，如 `x : int = ...`。";

/// Explains `H004`.
pub const AMBIGUOUS_OP: &'static str = "运算符重载歧义：同一运算符对两个操作数类型存在多种解释。\n  修复：为操作数添加显式类型，消除歧义。";

/// Explains `H005`.
pub const SYNTAX: &'static str = "语法错误：源码不符合 Hone 语法。\n  修复：检查尖括号指示的位置附近的语句结构。";

/// Explains `H006`.
pub const STR_TO_INT: &'static str = "字符串转整数失败（to_int）。\n  修复：确认字符串内容为合法整数格式，如 \"42\"。";

/// Explains `H007`.
pub const STR_TO_FLOAT: &'static str = "字符串转浮点数失败（to_float）。\n  修复：确认字符串内容为合法浮点格式，如 \"3.14\"。";

/// Explains `H008`.
pub const COND_NOT_BOOL: &'static str = "条件表达式必须是 bool。Hone 禁止 if/while 使用整数等隐式真值。\n  修复：显式比较，如 `if (x != 0)`。";

/// Explains `H009`.
pub const DIV_ZERO: &'static str = "除零错误：整数除法或取模的除数为 0。\n  修复：在除法前检查除数是否为 0。";

/// Explains `H010`.
pub const INTEGER_OVERFLOW: &'static str = "整数溢出：64 位有符号整数运算超出范围。\n  修复：检查运算是否可能超出 i64 范围，必要时改用浮点数。";

/// Explains `H011`.
pub const ARG_COUNT: &'static str = "参数数量不匹配：调用时实参个数与函数/内置函数签名不一致。\n  修复：按签名补齐或删减参数。";

/// Explains `H012`.
pub const RECURSION_DEPTH: &'static str = "递归过深：调用深度超过 5000 层上限，疑似无限递归。\n  修复：检查递归终止条件，或改为迭代实现。";

/// Explains `H100`.
pub const LIB_LOAD: &'static str = "动态库加载失败：`load` 指定的库无法加载。\n  修复：检查路径是否为完整绝对路径、文件是否存在、位数与系统是否匹配。";

/// Explains `H110`.
pub const LAZY_MISSING: &'static str = "懒加载依赖函数未找到：`load lazy` 的库中没有被调用的函数或其依赖。\n  修复：检查函数名拼写，确认该库导出了此函数。";

/// Explains `H101`.
pub const ILLEGAL_CHAR: &'static str = "非法字符：源码中出现 Hone 不支持的字符。\n  修复：检查该位置的字符，删除或替换为合法符号。";

/// Explains `H102`.
pub const UNTERMINATED_STRING: &'static str = "字符串未闭合：双引号字符串缺少结束引号。\n  修复：在字符串末尾补上 `\"`。";

/// Explains `H103`.
pub const UNTERMINATED_COMMENT: &'static str = "注释未闭合：`/*` 多行注释缺少 `*/`。\n  修复：在注释末尾补上 `*/`。";

/// Explains `H104`.
pub const MISSING_SEMI: &'static str = "语句缺少分号：Hone 要求每条语句以 `;` 结束。\n  修复：在语句末尾补上 `;`。";

/// Explains `H200`.
pub const NETWORK: &'static str = "网络请求失败（通用）：http_get / http_post 未能完成请求。\n  修复：检查网络连通性、URL 与代理设置；可使用 try-catch 做重试或降级。";

/// Explains `H201`.
pub const NET_TIMEOUT: &'static str = "网络连接/请求超时：在规定时间内未收到响应。\n  修复：检查远端服务状态、增大超时，或稍后重试。";

/// Explains `H202`.
pub const NET_CONN_REFUSED: &'static str = "连接被拒绝：目标端口无服务监听或防火墙拦截。\n  修复：确认服务已启动、端口与地址正确。";

/// Explains `H203`.
pub const NET_DNS: &'static str = "DNS 解析失败：无法将主机名解析为 IP 地址。\n  修复：检查主机名拼写与 DNS 配置。";

/// Explains `H204`.
pub const NET_HTTP_STATUS: &'static str = "非 2xx 响应：HTTP 请求成功送达，但服务端返回了错误状态码。\n  修复：检查 URL 与参数，根据具体状态码（404/500 等）处理。";

/// Explains `H300`.
pub const SYSCALL: &'static str = "系统调用失败（通用）：操作系统 API 返回错误。\n  修复：根据错误信息检查系统状态（注册表、剪贴板等）。";

/// Explains `H301`.
pub const DLL_LOAD: &'static str = "DLL 加载失败：load 指定的动态库无法加载。\n  修复：确认库文件存在、路径正确、位数匹配（x64）。";

/// Explains `H302`.
pub const DLL_ARG: &'static str = "DLL 参数校验失败：调用动态库函数时参数不符合 C ABI 约定。\n  修复：确认参数数量不超过 8 个且均为整数/数值类型。";

/// Explains `H303`.
pub const PERMISSION: &'static str = "权限不足：操作被系统拒绝（文件、注册表等）。\n  修复：以管理员身份运行，或调整文件/注册表权限。";

/// Explains `H304`.
pub const PTR_INVALID: &'static str = "野指针：指针未分配、已释放（use-after-free）、重复释放（double-free）或为空。\n  修复：只读写/释放由 ptr.alloc 返回且尚未 ptr.free 的指针；外部 FFI 句柄由库管理。";

/// Explains `H305`.
pub const PTR_OOB: &'static str = "指针越界访问：读写区间超出 ptr.alloc 分配的大小。\n  修复：用 ptr.size(p) 查询分配大小，检查偏移是否在 0..size 内。";

/// Explains `H401`.
pub const FILE_NOT_FOUND: &'static str = "文件不存在：读取或写入的目标文件不存在。\n  修复：确认路径拼写，或先调用 write_file / file_exists 处理。";

/// Explains `H402`.
pub const FILE_PERMISSION: &'static str = "文件权限不足：无权限读取或写入该文件。\n  修复：检查文件只读属性与运行用户权限。";

/// Explains `H403`.
pub const FILE_LOCKED: &'static str = "文件被占用/锁定：文件正被其他进程独占（Windows 常见）。\n  修复：关闭占用进程，稍后重试；可用 try-catch 配合重试。";

/// Explains `H404`.
pub const NOT_FOUND: &'static str = "文件或库不存在（通用）：NOT_FOUND。\n  修复：检查路径与模块缓存（~/.hone/cache/）。";

/// Explains `H600`.
pub const THROW: &'static str = "用户主动抛出的错误（throw）。\n  修复：查看 throw 携带的 message 说明，或由调用方 try-catch 处理。";

/// Explains `H700`.
pub const ASSERT: &'static str = "assert 断言失败（测试框架）。\n  修复：检查断言条件与期望值；断言失败即测试用例不通过。";

/// Explains `H999`.
pub const NOT_IMPLEMENTED: &'static str = "尚未实现的功能。\n  修复：该特性仍在规划中，请改用其他方式或等待新版本。";

} // verus!
