//! The checks a model configuration passes before it is built.
use crate::error::Error;
use crate::llm::function::ToolInfo;
use crate::llm::messages::text_or_empty;
use crate::llm::requests::LLM;
use crate::llm::LLMProvider;
use crate::text::{chars_eq, chars_of, extend_chars, string_from_vec};
use vstd::prelude::*;

verus! {

/// The first name of `names`, from position `j` on, that occurs earlier.
pub open spec fn first_repeat(names: Seq<Seq<char>>, j: int) -> Option<Seq<char>>
    decreases names.len() - j,
{
    if j < 0 || j >= names.len() {
        None
    } else if names.take(j).contains(names[j]) {
        Some(names[j])
    } else {
        first_repeat(names, j + 1)
    }
}

/// Checks a model configuration: a model name and a provider are needed,
/// and no two tools may share a name (the first repeated name is
/// reported).
pub fn check_build(
    model: &Option<String>,
    provider: &Option<LLMProvider>,
    tool_names: &Vec<String>,
) -> (res: Result<(), Error>)
    ensures
        model is None ==> (res matches Err(Error::Input(m)) && m@ == "LLM name not set"@),
        model is Some && provider is None ==> (res matches Err(Error::Input(m)) && m@
            == "LLM provider not set"@),
        model is Some && provider is Some ==> match first_repeat(
            tool_names@.map_values(|s: String| s@),
            0,
        ) {
            Some(n) => res matches Err(Error::Input(m)) && m@ == "Duplicate tool name detected: "@
                + n,
            None => res is Ok,
        },
{
    if model.is_none() {
        return Err(Error::Input(string_from_vec(chars_of("LLM name not set"))));
    }
    if provider.is_none() {
        return Err(Error::Input(string_from_vec(chars_of("LLM provider not set"))));
    }
    let ghost names = tool_names@.map_values(|s: String| s@);
    let mut j: usize = 0;
    while j < tool_names.len()
        invariant
            j <= tool_names.len(),
            model is Some,
            provider is Some,
            names == tool_names@.map_values(|s: String| s@),
            first_repeat(names, j as int) == first_repeat(names, 0),
        decreases tool_names.len() - j,
    {
        let cj = chars_of(tool_names[j].as_str());
        let mut i: usize = 0;
        let mut seen = false;
        while i < j
            invariant
                i <= j < tool_names.len(),
                names == tool_names@.map_values(|s: String| s@),
                cj@ == names[j as int],
                seen == names.take(i as int).contains(names[j as int]),
            decreases j - i,
        {
            let ci = chars_of(tool_names[i].as_str());
            let same = chars_eq(ci.as_slice(), cj.as_slice());
            proof {
                assert(names.take(i + 1) =~= names.take(i as int).push(names[i as int]));
                lemma_contains_push(names.take(i as int), names[i as int], names[j as int]);
            }
            seen = seen || same;
            i += 1;
        }
        assert(names.take(j as int).take(i as int) =~= names.take(j as int));
        if seen {
            let mut m = chars_of("Duplicate tool name detected: ");
            extend_chars(&mut m, cj.as_slice());
            return Err(Error::Input(string_from_vec(m)));
        }
        j += 1;
    }
    Ok(())
}


proof fn lemma_contains_push(s: Seq<Seq<char>>, a: Seq<char>, x: Seq<char>)
    ensures
        s.push(a).contains(x) == (s.contains(x) || a == x),
{
    if s.push(a).contains(x) {
        let w = choose|w: int| 0 <= w < s.push(a).len() && #[trigger] s.push(a)[w] == x;
        if w < s.len() {
            assert(s[w] == x);
        }
    }
    if s.contains(x) {
        let w = choose|w: int| 0 <= w < s.len() && #[trigger] s[w] == x;
        assert(s.push(a)[w] == x);
    }
    if a == x {
        assert(s.push(a)[s.len() as int] == x);
    }
}

/// What a model is built from: its name, system prompt, provider,
/// credentials, tools and endpoint, each where it was set.
#[derive(Debug)]
pub struct LLMBuilder {
    pub model: Option<String>,
    pub system_prompt: Option<String>,
    pub provider: Option<LLMProvider>,
    pub authorization: Option<String>,
    pub tools: Vec<ToolInfo>,
    pub endpoint: Option<String>,
}

impl Default for LLMBuilder {
    /// Nothing set and no tools.
    fn default() -> (res: Self)
        ensures
            res.model is None,
            res.system_prompt is None,
            res.provider is None,
            res.authorization is None,
            res.tools@.len() == 0,
            res.endpoint is None,
    {
        LLMBuilder {
            model: None,
            system_prompt: None,
            provider: None,
            authorization: None,
            tools: Vec::new(),
            endpoint: None,
        }
    }
}

/// The names of the tools `ts`.
pub open spec fn tool_names(ts: Seq<ToolInfo>) -> Seq<Seq<char>> {
    ts.map_values(|t: ToolInfo| t.name@)
}

impl LLMBuilder {
    /// Builds the model: a name and a provider are needed, no two tools may
    /// share a name (the first repeated name is reported), and a missing
    /// system prompt is empty.
    pub fn build(self) -> (res: Result<LLM, Error>)
        ensures
            self.model is None ==> (res matches Err(Error::Input(m)) && m@ == "LLM name not set"@),
            self.model is Some && self.provider is None ==> (res matches Err(Error::Input(m)) && m@
                == "LLM provider not set"@),
            self.model is Some && self.provider is Some ==> match first_repeat(tool_names(self.tools@), 0) {
                Some(n) => res matches Err(Error::Input(m)) && m@ == "Duplicate tool name detected: "@
                    + n,
                None => res matches Ok(llm) && self.model == Some(llm.model) && llm.system_prompt@
                    == text_or_empty(self.system_prompt) && self.provider == Some(llm.provider)
                    && llm.authorization == self.authorization && llm.endpoint == self.endpoint
                    && llm.tools == self.tools,
            },
    {
        let mut names: Vec<String> = Vec::new();
        let mut k: usize = 0;
        while k < self.tools.len()
            invariant
                k <= self.tools.len(),
                names@.map_values(|s: String| s@) == tool_names(self.tools@.take(k as int)),
            decreases self.tools.len() - k,
        {
            let ghost before = names@;
            names.push(self.tools[k].name.clone());
            assert(names@.map_values(|s: String| s@) =~= before.map_values(|s: String| s@).push(
                self.tools@[k as int].name@,
            ));
            assert(tool_names(self.tools@.take(k + 1)) =~= tool_names(self.tools@.take(k as int)).push(
                self.tools@[k as int].name@,
            ));
            k += 1;
        }
        assert(self.tools@.take(k as int) =~= self.tools@);
        match check_build(&self.model, &self.provider, &names) {
            Err(e) => Err(e),
            Ok(()) => {
                let model = match self.model {
                    Some(m) => m,
                    None => String::new(),
                };
                let provider = match self.provider {
                    Some(p) => p,
                    None => LLMProvider::Google,
                };
                let system_prompt = match self.system_prompt {
                    Some(p) => p,
                    None => String::new(),
                };
                Ok(
                    LLM {
                        model,
                        system_prompt,
                        provider,
                        authorization: self.authorization,
                        tools: self.tools,
                        endpoint: self.endpoint,
                    },
                )
            },
        }
    }

    /// The builder with `tool` added after its tools.
    pub fn add_tool(self, tool: ToolInfo) -> (res: Self)
        ensures
            res.tools@ == self.tools@.push(tool),
            res.model == self.model,
            res.system_prompt == self.system_prompt,
            res.provider == self.provider,
            res.authorization == self.authorization,
            res.endpoint == self.endpoint,
    {
        let mut s = self;
        s.tools.push(tool);
        s
    }

    /// The builder with `tools`, in order, added after its tools.
    pub fn add_tools(self, tools: Vec<ToolInfo>) -> (res: Self)
        ensures
            res.tools@ == self.tools@ + tools@,
            res.model == self.model,
            res.system_prompt == self.system_prompt,
            res.provider == self.provider,
            res.authorization == self.authorization,
            res.endpoint == self.endpoint,
    {
        let mut s = self;
        let mut tools = tools;
        s.tools.append(&mut tools);
        s
    }

    /// The builder with `authorization` as its credentials.
    pub fn set_authorization(self, authorization: &str) -> (res: Self)
        ensures
            res.authorization matches Some(a) && a@ == authorization@,
            res.model == self.model,
            res.system_prompt == self.system_prompt,
            res.provider == self.provider,
            res.tools == self.tools,
            res.endpoint == self.endpoint,
    {
        LLMBuilder { authorization: Some(String::from_str(authorization)), ..self }
    }

    /// The builder with `name` as the model's name.
    pub fn set_model(self, name: &str) -> (res: Self)
        ensures
            res.model matches Some(m) && m@ == name@,
            res.system_prompt == self.system_prompt,
            res.provider == self.provider,
            res.authorization == self.authorization,
            res.tools == self.tools,
            res.endpoint == self.endpoint,
    {
        LLMBuilder { model: Some(String::from_str(name)), ..self }
    }

    /// The builder with `prompt` as the system prompt.
    pub fn set_system_prompt(self, prompt: &str) -> (res: Self)
        ensures
            res.system_prompt matches Some(p) && p@ == prompt@,
            res.model == self.model,
            res.provider == self.provider,
            res.authorization == self.authorization,
            res.tools == self.tools,
            res.endpoint == self.endpoint,
    {
        LLMBuilder { system_prompt: Some(String::from_str(prompt)), ..self }
    }

    /// The builder with `provider` as the provider.
    pub fn set_provider(self, provider: LLMProvider) -> (res: Self)
        ensures
            res.provider == Some(provider),
            res.model == self.model,
            res.system_prompt == self.system_prompt,
            res.authorization == self.authorization,
            res.tools == self.tools,
            res.endpoint == self.endpoint,
    {
        LLMBuilder { provider: Some(provider), ..self }
    }

    /// The builder with `endpoint` as the endpoint.
    pub fn set_endpoint(self, endpoint: &str) -> (res: Self)
        ensures
            res.endpoint matches Some(e) && e@ == endpoint@,
            res.model == self.model,
            res.system_prompt == self.system_prompt,
            res.provider == self.provider,
            res.authorization == self.authorization,
            res.tools == self.tools,
    {
        LLMBuilder { endpoint: Some(String::from_str(endpoint)), ..self }
    }
}

impl LLM {
    /// A builder with nothing set.
    pub fn builder() -> (res: LLMBuilder)
        ensures
            res.model is None,
            res.system_prompt is None,
            res.provider is None,
            res.authorization is None,
            res.tools@.len() == 0,
            res.endpoint is None,
    {
        LLMBuilder::default()
    }
}

} // verus!
