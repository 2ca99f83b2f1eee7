//! What the command line asks for, and the downloads and settings that
//! follow from it.

use vstd::prelude::*;
use vstd::string::*;
use crate::config::{Config, DownloadConfig};
use crate::text::{after_last, text_after_last, words, words_of};

verus! {

/// The command line's options.
#[derive(Debug, Clone)]
pub struct Args {
    /// Report each outcome by desktop notification.
    pub notify: bool,
    /// Detach and run in the background.
    pub background: bool,
    /// Continue partial downloads.
    pub continue_: bool,
    /// URLs to download.
    pub url: Vec<String>,
    /// Output file for each URL, in the same order.
    pub output: Vec<String>,
    /// Workers per file; 1 leaves the configured value.
    pub workers: usize,
    /// A file that lists URLs, one per line.
    pub file: Option<String>,
}

/// The file name a URL suggests: what follows its last `/`.
pub open spec fn name_from_url(url: Seq<char>) -> Seq<char> {
    after_last(url, '/')
}

/// The file name a URL suggests: what follows its last `/`.
pub fn file_name_from_url(url: &str) -> (r: String)
    ensures
        r@ == name_from_url(url@),
{
    text_after_last(url, '/')
}

/// The downloads a list of URLs and of outputs ask for: URL `i` goes to
/// output `i`, or to the name the URL suggests when outputs run out. No
/// downloads come of outputs given in another number than URLs.
pub open spec fn pairs_for(urls: Seq<Seq<char>>, outputs: Seq<Seq<char>>) -> Option<Seq<(Seq<char>, Seq<char>)>> {
    if outputs.len() > 0 && outputs.len() != urls.len() {
        None
    } else {
        Some(Seq::new(urls.len(), |i: int| (urls[i], if i < outputs.len() { outputs[i] } else { name_from_url(urls[i]) })))
    }
}

/// The download entry a line of a URL list gives: `url output`, or just
/// `url`, saved under the name it suggests. Any other line gives none.
pub open spec fn line_entry(line: Seq<char>) -> Option<(Seq<char>, Seq<char>)> {
    let w = words_of(line);
    if w.len() == 2 {
        Some((w[0], w[1]))
    } else if w.len() == 1 {
        Some((w[0], name_from_url(w[0])))
    } else {
        None
    }
}

/// Reads one line of a URL list.
pub fn parse_line(line: &str) -> (r: Option<(String, String)>)
    ensures
        match line_entry(line@) {
            Some((u, o)) => r is Some && (r->0).0@ == u && (r->0).1@ == o,
            None => r is None,
        },
{
    let w = words(line);
    proof {
        assert(w@.len() == words_of(line@).len());
        if w@.len() >= 1 {
            assert(w@[0]@ == words_of(line@)[0]);
        }
        if w@.len() == 2 {
            assert(w@[1]@ == words_of(line@)[1]);
        }
    }
    if w.len() == 2 {
        Some((w[0].clone(), w[1].clone()))
    } else if w.len() == 1 {
        let name = file_name_from_url(w[0].as_str());
        Some((w[0].clone(), name))
    } else {
        None
    }
}

impl Args {
    /// The downloads the command line asks for, each a URL and its output.
    /// `None` when outputs are given but not one for each URL.
    pub fn download_pairs(&self) -> (r: Option<Vec<(String, String)>>)
        ensures
            match pairs_for(self.url@.map_values(|u: String| u@), self.output@.map_values(|o: String| o@)) {
                Some(ps) => r is Some && r->0@.map_values(|p: (String, String)| (p.0@, p.1@)) == ps,
                None => r is None,
            },
    {
        let ghost urls = self.url@.map_values(|u: String| u@);
        let ghost outputs = self.output@.map_values(|o: String| o@);
        if self.output.len() > 0 && self.output.len() != self.url.len() {
            return None;
        }
        let ghost ps = pairs_for(urls, outputs)->0;
        let mut out: Vec<(String, String)> = Vec::new();
        let mut i: usize = 0;
        while i < self.url.len()
            invariant
                i <= self.url@.len(),
                urls == self.url@.map_values(|u: String| u@),
                outputs == self.output@.map_values(|o: String| o@),
                ps == pairs_for(urls, outputs)->0,
                pairs_for(urls, outputs) is Some,
                out@.len() == i,
                forall|k: int| 0 <= k < i ==> (#[trigger] out@[k]).0@ == ps[k].0 && out@[k].1@ == ps[k].1,
            decreases self.url@.len() - i,
        {
            let target = if i < self.output.len() {
                self.output[i].clone()
            } else {
                file_name_from_url(self.url[i].as_str())
            };
            out.push((self.url[i].clone(), target));
            i = i + 1;
        }
        assert(out@.map_values(|p: (String, String)| (p.0@, p.1@)) =~= ps);
        Some(out)
    }

    /// The workers per file: those asked for on the command line, unless
    /// that is the default of 1, which leaves the configured number.
    pub fn effective_workers(&self, configured: usize) -> (r: usize)
        ensures
            r == if self.workers != 1 { self.workers } else { configured },
    {
        if self.workers != 1 { self.workers } else { configured }
    }

    /// The engine settings for this command line over configuration `cfg`.
    pub fn download_config(&self, cfg: &Config) -> (r: DownloadConfig)
        ensures
            r.workers == if self.workers != 1 { self.workers } else { cfg.workers },
            r.continue_download == self.continue_,
            r.notify == self.notify,
            r.template@ == cfg.template@,
            r.msg_template@ == cfg.msg_template@,
            r.chars@ == cfg.bar_chars@,
            r.buffer_size == cfg.buffer_size,
            r.pool_size == cfg.pool_size,
            r.retries == cfg.retries,
            r.min_parallel_size == cfg.min_parallel_size,
            r.max_concurrent_files is None,
    {
        DownloadConfig {
            workers: self.effective_workers(cfg.workers),
            continue_download: self.continue_,
            notify: self.notify,
            template: cfg.template.clone(),
            msg_template: cfg.msg_template.clone(),
            chars: cfg.bar_chars.clone(),
            buffer_size: cfg.buffer_size,
            pool_size: cfg.pool_size,
            retries: cfg.retries,
            min_parallel_size: cfg.min_parallel_size,
            max_concurrent_files: None,
        }
    }
}

} // verus!
