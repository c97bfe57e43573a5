# impsupri

Finds HP printers in the network, reads their internal web pages, and reports
what they show, as JSON or as a CSV table of printed pages.

- `src/` is the library, verified with Verus: which addresses to look at
  (`scan`, `search`, `network`, `address`, `address_list`), which pages to ask for and what
  to make of the answers (`contact`), what the pages say (`scrape`, `html`,
  `printerinfo`), and how to report it (`report`, `options`, `text`).
- `app/` is the program around it: arguments, pings, requests and files.
- `tests/` runs the library.

Functions named `law_*` state properties of the library as a whole: that no
address is contacted twice, that a network is visited whole but for the own
address, that a cluster search visits all neighboring networks whose gateways
answer, that a scan counts what it passed on, that login screens are never read, that a row of the table has five
columns.

Trusted without proof are the calls into `scraper` (in `html`) and `ipnetwork`
(in `network`), and what `char::is_whitespace` and `String::from_utf8` do (in
`address_list`).
